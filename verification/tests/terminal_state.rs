use wterm::terminal::state::{
    AnsiColor, MAX_HISTORY_LINES, MAX_MAIN_BUFFER_COLS, TerminalCell, TerminalState,
    protection_active,
};
use wterm::utils::color::Rgba;

fn row_text(state: &TerminalState, row: usize) -> String {
    state.main_buffer[row].iter().map(|c| c.ch).collect::<String>().trim_end().to_string()
}

fn print(state: &mut TerminalState, text: &str) {
    for ch in text.chars() {
        assert!(state.print(ch));
    }
}

#[test]
fn defaults() {
    let c = AnsiColor::default();
    assert_eq!(c.foreground, Rgba::white());
    assert_eq!(c.background, Rgba::transparent());
    assert!(!c.bold && !c.italic && !c.underline && !c.reverse);
    let cell = TerminalCell::default();
    assert_eq!(cell.ch, ' ');
    assert_eq!(cell.color, c);
}

#[test]
fn new_terminal() {
    let s = TerminalState::new(24, 80);
    assert_eq!(s.main_buffer.len(), 1);
    assert_eq!(s.main_buffer[0].len(), MAX_MAIN_BUFFER_COLS);
    assert_eq!(s.render_buffer.len(), 1);
    assert_eq!(s.render_buffer[0].len(), 80);
    assert_eq!((s.cursor_row, s.cursor_col), (0, 0));
    assert_eq!((s.render_cursor_row, s.render_cursor_col), (0, 0));
    assert!(!s.render_buffer_dirty);
    assert!(s.cursor_visible);
    assert!(!s.is_alt_screen);
    assert!(s.main_buffer_backup.is_none());
}

#[test]
fn printing_writes_cells_and_advances() {
    let mut s = TerminalState::new(24, 80);
    s.current_color.bold = true;
    print(&mut s, "hi");
    assert_eq!(row_text(&s, 0), "hi");
    assert_eq!(s.cursor_col, 2);
    assert!(s.main_buffer[0][0].color.bold);
    assert!(s.render_buffer_dirty);
}

#[test]
fn wide_character_leaves_continuation_cell() {
    let mut s = TerminalState::new(24, 80);
    print(&mut s, "한");
    assert_eq!(s.main_buffer[0][0].ch, '한');
    assert_eq!(s.main_buffer[0][1].ch, '\0');
    assert_eq!(s.cursor_col, 2);
}

#[test]
fn printing_past_the_row_grows_it() {
    let mut s = TerminalState::new(24, 80);
    s.cursor_col = MAX_MAIN_BUFFER_COLS;
    print(&mut s, "x");
    assert_eq!(s.main_buffer[0].len(), MAX_MAIN_BUFFER_COLS + 1);
    assert_eq!(s.main_buffer[0][MAX_MAIN_BUFFER_COLS].ch, 'x');
}

#[test]
fn printing_creates_missing_rows() {
    let mut s = TerminalState::new(24, 80);
    s.cursor_row = 3;
    print(&mut s, "z");
    assert_eq!(s.main_buffer.len(), 4);
    assert_eq!(row_text(&s, 3), "z");
}

#[test]
fn zero_width_character_past_row_end_is_refused() {
    let mut s = TerminalState::new(24, 80);
    s.cursor_col = MAX_MAIN_BUFFER_COLS;
    assert!(!s.can_put_char('\u{301}'));
    assert!(!s.print('\u{301}'));
    assert_eq!(s.main_buffer[0].len(), MAX_MAIN_BUFFER_COLS);
    s.cursor_col = 5;
    assert!(s.print('\u{301}'));
    assert_eq!(s.cursor_col, 5);
}

#[test]
fn printing_clears_arrow_protection() {
    let mut s = TerminalState::new(24, 80);
    s.set_arrow_key_protection();
    assert!(s.arrow_key_pressed);
    assert!(s.should_protect_from_arrow_key());
    print(&mut s, "a");
    assert!(!s.arrow_key_pressed);
    assert!(s.arrow_key_time.is_none());
    assert!(!s.should_protect_from_arrow_key());
}

#[test]
fn newline_moves_to_next_row() {
    let mut s = TerminalState::new(24, 80);
    print(&mut s, "ab");
    s.newline();
    assert_eq!((s.cursor_row, s.cursor_col), (1, 0));
    assert_eq!(s.main_buffer.len(), 2);
}

#[test]
fn history_is_capped() {
    let mut s = TerminalState::new(24, 80);
    print(&mut s, "first");
    for _ in 0..MAX_HISTORY_LINES + 5 {
        s.newline();
        assert!(s.main_buffer.len() <= MAX_HISTORY_LINES);
        assert!(s.cursor_row < s.main_buffer.len());
    }
    assert_eq!(s.main_buffer.len(), MAX_HISTORY_LINES);
    assert_eq!(s.cursor_row, MAX_HISTORY_LINES - 1);
    assert_ne!(row_text(&s, 0), "first");
}

#[test]
fn carriage_return_goes_to_column_zero() {
    let mut s = TerminalState::new(24, 80);
    print(&mut s, "abc");
    s.carriage_return();
    assert_eq!(s.cursor_col, 0);
    assert_eq!(row_text(&s, 0), "abc");
}

#[test]
fn backspace_erases_the_printed_character() {
    let mut s = TerminalState::new(24, 80);
    print(&mut s, "ab");
    s.backspace();
    assert_eq!(s.cursor_col, 1);
    assert_eq!(row_text(&s, 0), "a");
    s.cursor_col = 0;
    s.backspace();
    assert_eq!(s.cursor_col, 0);
    assert_eq!(row_text(&s, 0), "a");
}

#[test]
fn clear_screen_leaves_one_blank_row() {
    let mut s = TerminalState::new(24, 80);
    print(&mut s, "abc");
    s.newline();
    s.clear_screen();
    assert_eq!(s.main_buffer.len(), 1);
    assert_eq!(row_text(&s, 0), "");
    assert_eq!((s.cursor_row, s.cursor_col), (0, 0));
}

#[test]
fn resize_clamps_cursor() {
    let mut s = TerminalState::new(24, 80);
    s.cursor_col = 70;
    s.cursor_row = 5;
    s.resize(10, 40);
    assert_eq!((s.rows, s.cols), (10, 40));
    assert_eq!(s.cursor_col, 39);
    assert_eq!(s.cursor_row, 0);
    assert!(s.render_buffer_dirty);
}

#[test]
fn resize_to_same_size_does_nothing() {
    let mut s = TerminalState::new(24, 80);
    s.cursor_col = 500;
    s.resize(24, 80);
    assert_eq!(s.cursor_col, 500);
    assert!(!s.render_buffer_dirty);
}

#[test]
fn move_cursor_is_clamped() {
    let mut s = TerminalState::new(24, 80);
    s.move_cursor_to(10, 5000);
    assert_eq!((s.cursor_row, s.cursor_col), (0, MAX_MAIN_BUFFER_COLS - 1));
    s.switch_to_alt_screen();
    s.move_cursor_to(100, 100);
    assert_eq!((s.cursor_row, s.cursor_col), (23, 79));
}

#[test]
fn alt_screen_round_trip_restores_main_screen() {
    let mut s = TerminalState::new(24, 80);
    print(&mut s, "main");
    s.newline();
    print(&mut s, "prompt");
    let saved = s.main_buffer.clone();
    let cursor = (s.cursor_row, s.cursor_col);
    s.switch_to_alt_screen();
    assert!(s.is_alt_screen);
    assert_eq!(s.main_buffer.len(), 24);
    assert_eq!((s.cursor_row, s.cursor_col), (0, 0));
    assert!(s.main_buffer.iter().all(|r| r.iter().all(|c| *c == TerminalCell::default())));
    print(&mut s, "vim");
    s.switch_to_alt_screen();
    assert_eq!(row_text(&s, 0), "vim");
    s.switch_to_main_screen();
    assert!(!s.is_alt_screen);
    assert_eq!(s.main_buffer, saved);
    assert_eq!((s.cursor_row, s.cursor_col), cursor);
    assert!(s.main_buffer_backup.is_none());
    s.switch_to_main_screen();
    assert_eq!(s.main_buffer, saved);
}

#[test]
fn arrow_protection_flags() {
    let mut s = TerminalState::new(24, 80);
    assert!(!s.should_protect_from_arrow_key());
    s.set_arrow_key_protection();
    assert!(s.arrow_key_time.is_some());
    s.clear_arrow_key_protection();
    assert!(!s.arrow_key_pressed);
    assert!(s.arrow_key_time.is_none());
}

#[test]
fn protection_window_is_300_ms() {
    assert!(protection_active(true, Some(0)));
    assert!(protection_active(true, Some(299)));
    assert!(!protection_active(true, Some(300)));
    assert!(!protection_active(true, None));
    assert!(!protection_active(false, Some(10)));
}

#[test]
fn mark_dirty() {
    let mut s = TerminalState::new(24, 80);
    s.mark_render_dirty();
    assert!(s.render_buffer_dirty);
    s.update_render_buffer_if_dirty();
    assert!(!s.render_buffer_dirty);
}
