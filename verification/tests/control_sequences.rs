use wterm::terminal::performer::RepaintThrottle;
use wterm::terminal::state::{AnsiColor, MAX_MAIN_BUFFER_COLS, TerminalCell, TerminalState};
use wterm::utils::color::{Rgba, ansi_256_to_rgb};

fn print(state: &mut TerminalState, text: &str) {
    for ch in text.chars() {
        assert!(state.print(ch));
    }
}

fn csi(state: &mut TerminalState, params: &[&[u16]], c: char) -> bool {
    let p: Vec<Vec<u16>> = params.iter().map(|g| g.to_vec()).collect();
    assert!(state.can_csi_dispatch(&p, c));
    state.csi_dispatch(&p, &Vec::new(), c)
}

fn private_mode(state: &mut TerminalState, mode: u16, c: char) -> bool {
    let p = vec![vec![mode]];
    state.csi_dispatch(&p, &vec![b'?'], c)
}

fn row_text(state: &TerminalState, row: usize) -> String {
    state.main_buffer[row].iter().map(|c| c.ch).collect::<String>().trim_end().to_string()
}

#[test]
fn line_feed_and_carriage_return() {
    let mut s = TerminalState::new(24, 80);
    print(&mut s, "ab");
    assert_eq!(s.execute(b'\r'), (true, true));
    assert_eq!(s.cursor_col, 0);
    assert_eq!(s.execute(b'\n'), (true, true));
    assert_eq!((s.cursor_row, s.cursor_col), (1, 0));
}

#[test]
fn tab_goes_to_next_stop_or_last_column() {
    let mut s = TerminalState::new(24, 20);
    s.cursor_col = 3;
    assert_eq!(s.execute(b'\t'), (true, false));
    assert_eq!(s.cursor_col, 8);
    assert_eq!(s.execute(b'\t'), (true, false));
    assert_eq!(s.cursor_col, 16);
    assert_eq!(s.execute(b'\t'), (true, false));
    assert_eq!(s.cursor_col, 19);
}

#[test]
fn tab_without_columns_is_refused() {
    let s = TerminalState::new(24, 0);
    assert!(!s.can_execute(b'\t'));
    assert!(s.can_execute(b'\n'));
}

#[test]
fn backspace_control_and_protection() {
    let mut s = TerminalState::new(24, 80);
    print(&mut s, "ab");
    assert_eq!(s.execute(0x08), (true, false));
    assert_eq!(s.cursor_col, 1);
    s.set_arrow_key_protection();
    assert_eq!(s.execute(0x7f), (false, false));
    assert_eq!(s.cursor_col, 1);
    s.clear_arrow_key_protection();
    assert_eq!(s.execute(0x7f), (true, false));
    assert_eq!(s.cursor_col, 0);
}

#[test]
fn form_feed_clears() {
    let mut s = TerminalState::new(24, 80);
    print(&mut s, "ab");
    s.set_arrow_key_protection();
    assert_eq!(s.execute(0x0c), (true, true));
    assert_eq!(row_text(&s, 0), "");
    assert!(!s.arrow_key_pressed);
    assert_eq!(s.execute(0x07), (false, false));
}

#[test]
fn cursor_position() {
    let mut s = TerminalState::new(24, 80);
    s.switch_to_alt_screen();
    assert!(csi(&mut s, &[&[5], &[10]], 'H'));
    assert_eq!((s.cursor_row, s.cursor_col), (4, 9));
    assert!(csi(&mut s, &[], 'f'));
    assert_eq!((s.cursor_row, s.cursor_col), (0, 0));
    assert!(csi(&mut s, &[&[0], &[0]], 'H'));
    assert_eq!((s.cursor_row, s.cursor_col), (0, 0));
}

#[test]
fn cursor_motion() {
    let mut s = TerminalState::new(24, 80);
    s.switch_to_alt_screen();
    s.move_cursor_to(10, 10);
    assert!(csi(&mut s, &[&[3]], 'A'));
    assert_eq!(s.cursor_row, 7);
    assert!(s.arrow_key_pressed);
    assert!(csi(&mut s, &[&[0]], 'A'));
    assert_eq!(s.cursor_row, 6);
    assert!(csi(&mut s, &[&[100]], 'B'));
    assert_eq!(s.cursor_row, 23);
    assert!(csi(&mut s, &[&[5]], 'C'));
    assert_eq!(s.cursor_col, 15);
    assert!(csi(&mut s, &[&[100]], 'D'));
    assert_eq!(s.cursor_col, 0);
    assert!(csi(&mut s, &[&[3]], 'd'));
    assert_eq!(s.cursor_row, 2);
    assert!(csi(&mut s, &[&[7]], 'G'));
    assert_eq!(s.cursor_col, 6);
}

#[test]
fn erase_in_line() {
    let mut s = TerminalState::new(24, 80);
    print(&mut s, "abcdef");
    s.cursor_col = 2;
    assert!(csi(&mut s, &[&[0]], 'K'));
    assert_eq!(row_text(&s, 0), "ab");
    print(&mut s, "cdef");
    s.cursor_col = 2;
    assert!(csi(&mut s, &[&[1]], 'K'));
    assert_eq!(row_text(&s, 0), "   def");
    assert!(csi(&mut s, &[&[2]], 'K'));
    assert_eq!(row_text(&s, 0), "");
}

#[test]
fn erase_in_display_main_screen() {
    let mut s = TerminalState::new(24, 80);
    print(&mut s, "one");
    s.newline();
    print(&mut s, "two");
    s.newline();
    print(&mut s, "three");
    s.cursor_row = 1;
    s.cursor_col = 1;
    assert!(csi(&mut s, &[], 'J'));
    assert_eq!(row_text(&s, 0), "one");
    assert_eq!(row_text(&s, 1), "t");
    assert_eq!(row_text(&s, 2), "");
    print(&mut s, "wo");
    s.cursor_col = 1;
    assert!(csi(&mut s, &[&[1]], 'J'));
    assert_eq!(row_text(&s, 0), "");
    assert_eq!(row_text(&s, 1), "  o");
    assert!(csi(&mut s, &[&[2]], 'J'));
    assert_eq!(s.main_buffer.len(), 1);
    assert_eq!(s.main_buffer[0].len(), 80);
    assert_eq!((s.cursor_row, s.cursor_col), (0, 0));
    assert!(!csi(&mut s, &[&[9]], 'J'));
}

#[test]
fn erase_in_display_alt_screen_stays_in_screen() {
    let mut s = TerminalState::new(3, 4);
    s.switch_to_alt_screen();
    for r in 0..3 {
        s.move_cursor_to(r, 0);
        print(&mut s, "xxxxxx");
    }
    s.move_cursor_to(1, 1);
    assert!(csi(&mut s, &[&[0]], 'J'));
    assert_eq!(row_text(&s, 0), "xxxxxx");
    assert_eq!(row_text(&s, 1), "x   xx");
    assert_eq!(row_text(&s, 2), "    xx");
    assert!(csi(&mut s, &[&[3]], 'J'));
    assert_eq!(s.main_buffer.len(), 3);
    assert!(s.main_buffer.iter().all(|r| r.iter().all(|c| *c == TerminalCell::default())));
}

#[test]
fn erase_characters() {
    let mut s = TerminalState::new(24, 5);
    print(&mut s, "abcdefg");
    s.cursor_col = 1;
    assert!(csi(&mut s, &[&[2]], 'X'));
    assert_eq!(row_text(&s, 0), "a  defg");
    assert!(csi(&mut s, &[&[100]], 'X'));
    assert_eq!(row_text(&s, 0), "a    fg");
}

#[test]
fn select_graphic_rendition() {
    let mut s = TerminalState::new(24, 80);
    assert!(csi(&mut s, &[&[1], &[4], &[31]], 'm'));
    assert!(s.current_color.bold && s.current_color.underline);
    assert_eq!(s.current_color.foreground, ansi_256_to_rgb(1));
    assert!(csi(&mut s, &[&[38], &[5], &[196], &[48], &[2], &[1], &[2], &[3]], 'm'));
    assert_eq!(s.current_color.foreground, Rgba::from_rgb(255, 0, 0));
    assert_eq!(s.current_color.background, Rgba::from_rgb(1, 2, 3));
    assert!(csi(&mut s, &[&[22], &[24], &[7], &[39], &[49]], 'm'));
    assert!(!s.current_color.bold && !s.current_color.underline && s.current_color.reverse);
    assert_eq!(s.current_color.foreground, Rgba::from_rgb(203, 204, 205));
    assert_eq!(s.current_color.background, Rgba::transparent());
    assert!(csi(&mut s, &[&[0]], 'm'));
    assert_eq!(s.current_color, AnsiColor::default());
    assert!(csi(&mut s, &[&[95], &[104]], 'm'));
    assert_eq!(s.current_color.foreground, ansi_256_to_rgb(13));
    assert_eq!(s.current_color.background, ansi_256_to_rgb(12));
    assert!(csi(&mut s, &[], 'm'));
    assert_eq!(s.current_color, AnsiColor::default());
}

#[test]
fn modes() {
    let mut s = TerminalState::new(24, 80);
    assert!(private_mode(&mut s, 25, 'l'));
    assert!(!s.cursor_visible);
    assert!(private_mode(&mut s, 25, 'h'));
    assert!(s.cursor_visible);
    assert!(private_mode(&mut s, 1049, 'h'));
    assert!(s.is_alt_screen);
    assert!(private_mode(&mut s, 1049, 'l'));
    assert!(!s.is_alt_screen);
    assert!(!private_mode(&mut s, 1, 'h'));
    assert!(!csi(&mut s, &[&[2004]], 'h'));
}

#[test]
fn save_and_restore_cursor() {
    let mut s = TerminalState::new(24, 80);
    print(&mut s, "abc");
    assert!(csi(&mut s, &[], 's'));
    assert_eq!(s.saved_cursor_main, (0, 3));
    s.cursor_col = 0;
    assert!(csi(&mut s, &[], 'u'));
    assert_eq!(s.cursor_col, 3);
    assert!(s.esc_dispatch(b'7'));
    s.cursor_col = 9;
    assert!(s.esc_dispatch(b'8'));
    assert_eq!(s.cursor_col, 3);
    assert!(!s.esc_dispatch(b'c'));
}

#[test]
fn ignored_sequences() {
    let mut s = TerminalState::new(24, 80);
    for c in ['t', 'n', 'c', 'r', 'S', 'T', 'P', '@', 'L', 'M', 'z'] {
        assert!(!csi(&mut s, &[&[1]], c));
    }
}

#[test]
fn undefined_sequences_are_detected() {
    let s = TerminalState::new(24, 0);
    let p: Vec<Vec<u16>> = vec![vec![1]];
    assert!(!s.can_csi_dispatch(&p, 'C'));
    assert!(!s.can_csi_dispatch(&p, 'G'));
    let empty_group: Vec<Vec<u16>> = vec![vec![]];
    assert!(!s.can_csi_dispatch(&empty_group, 'H'));
    assert!(s.can_csi_dispatch(&empty_group, 'm'));
    let mut t = TerminalState::new(24, 80);
    t.cursor_row = 5;
    assert!(!t.can_csi_dispatch(&p, 'K'));
}

#[test]
fn cursor_moves_at_end_of_main_buffer_width() {
    let mut s = TerminalState::new(24, 80);
    assert!(csi(&mut s, &[&[1], &[5000]], 'H'));
    assert_eq!(s.cursor_col, MAX_MAIN_BUFFER_COLS - 1);
}

#[test]
fn repaint_throttle() {
    let mut t = RepaintThrottle::new();
    for _ in 0..50 {
        assert!(t.request(false));
    }
    assert_eq!(t.initial_repaints, 50);
    assert!(!t.request(false));
    assert!(t.request(true));
    assert_eq!(t.initial_repaints, 50);
}

#[test]
fn alt_screen_restored_after_full_screen_session() {
    let mut s = TerminalState::new(24, 80);
    print(&mut s, "ls");
    assert_eq!(s.execute(b'\n'), (true, true));
    print(&mut s, "$ ");
    let saved = s.main_buffer.clone();
    let cursor = (s.cursor_row, s.cursor_col);
    assert!(private_mode(&mut s, 1049, 'h'));
    print(&mut s, "editor");
    assert!(csi(&mut s, &[&[5], &[7]], 'H'));
    assert!(csi(&mut s, &[&[2]], 'J'));
    assert!(csi(&mut s, &[], 's'));
    assert!(csi(&mut s, &[&[3]], 'B'));
    assert_eq!(s.execute(b'\n'), (true, true));
    assert!(s.resize_terminal(30, 100));
    assert!(private_mode(&mut s, 1049, 'h'));
    print(&mut s, "more");
    assert!(private_mode(&mut s, 1049, 'l'));
    assert!(!s.is_alt_screen);
    assert_eq!(s.main_buffer, saved);
    assert_eq!((s.cursor_row, s.cursor_col), cursor);
    assert!(s.main_buffer_backup.is_none());
    assert!(s.render_buffer_dirty);
}

#[test]
fn cursor_restored_after_moves() {
    let mut s = TerminalState::new(24, 80);
    print(&mut s, "first");
    assert_eq!(s.execute(b'\n'), (true, true));
    print(&mut s, "second");
    assert!(s.esc_dispatch(b'7'));
    assert_eq!(s.saved_cursor_main, (1, 6));
    assert_eq!(s.execute(b'\n'), (true, true));
    print(&mut s, "third");
    assert_eq!(s.execute(b'\r'), (true, true));
    assert!(csi(&mut s, &[&[1]], 'A'));
    assert!(csi(&mut s, &[&[4]], 'C'));
    s.move_cursor_to(0, 2);
    assert!(private_mode(&mut s, 1049, 'l'));
    assert!(s.esc_dispatch(b'8'));
    assert_eq!((s.cursor_row, s.cursor_col), (1, 6));
    assert_eq!(s.saved_cursor_main, (1, 6));
}

#[test]
fn restored_column_stays_within_main_buffer_width() {
    let mut s = TerminalState::new(24, 80);
    s.cursor_col = MAX_MAIN_BUFFER_COLS + 5;
    assert!(s.esc_dispatch(b'7'));
    s.cursor_col = 0;
    assert!(s.esc_dispatch(b'8'));
    assert_eq!((s.cursor_row, s.cursor_col), (0, MAX_MAIN_BUFFER_COLS - 1));
    assert_eq!(s.saved_cursor_main, (0, MAX_MAIN_BUFFER_COLS + 5));
}

#[test]
fn zero_count_moves_by_one() {
    let mut s = TerminalState::new(24, 80);
    for _ in 0..3 {
        assert_eq!(s.execute(b'\n'), (true, true));
    }
    s.move_cursor_to(1, 5);
    assert!(csi(&mut s, &[&[0]], 'B'));
    assert_eq!((s.cursor_row, s.cursor_col), (2, 5));
    assert!(s.arrow_key_pressed && s.arrow_key_time.is_some());
    assert!(csi(&mut s, &[&[0]], 'A'));
    assert_eq!((s.cursor_row, s.cursor_col), (1, 5));
    assert!(csi(&mut s, &[&[0]], 'C'));
    assert_eq!((s.cursor_row, s.cursor_col), (1, 6));
    assert!(csi(&mut s, &[&[0]], 'D'));
    assert_eq!((s.cursor_row, s.cursor_col), (1, 5));
    assert!(csi(&mut s, &[], 'B'));
    assert_eq!(s.cursor_row, 2);
}
