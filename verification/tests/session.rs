use wterm::ime::korean::KoreanInputState;
use wterm::session::{
    KeyInput, control_char, find_prompt_end, handle_escape, handle_key_press, handle_tab,
    handle_tab_press,
    tab_debounce_allows, text_event_accepted,
};
use wterm::terminal::state::TerminalState;

fn print(state: &mut TerminalState, text: &str) {
    for ch in text.chars() {
        assert!(state.print(ch));
    }
}

fn composing(text: &str) -> KoreanInputState {
    let mut k = KoreanInputState::new();
    for ch in text.chars() {
        k.process_single_char(ch);
    }
    k
}

#[test]
fn control_characters() {
    assert_eq!(control_char('A'), Some('\u{1}'));
    assert_eq!(control_char('C'), Some('\u{3}'));
    assert_eq!(control_char('L'), Some('\u{c}'));
    assert_eq!(control_char('Z'), Some('\u{1a}'));
    assert_eq!(control_char('H'), None);
    assert_eq!(control_char('I'), None);
    assert_eq!(control_char('M'), None);
    assert_eq!(control_char('a'), None);
}

#[test]
fn prompt_end_after_marker() {
    let mut s = TerminalState::new(24, 20);
    print(&mut s, "dir ~ ls");
    assert_eq!(find_prompt_end(&s.main_buffer[0]), 6);
    let mut t = TerminalState::new(24, 20);
    print(&mut t, "✗ git");
    assert_eq!(find_prompt_end(&t.main_buffer[0]), 2);
    let u = TerminalState::new(24, 20);
    assert_eq!(find_prompt_end(&u.main_buffer[0]), 0);
}

#[test]
fn arrows_move_within_typed_text() {
    let mut s = TerminalState::new(24, 20);
    print(&mut s, "~ abc");
    s.update_render_buffer();
    s.cursor_col = 3;
    assert!(s.arrow_right());
    assert_eq!(s.cursor_col, 4);
    assert!(s.arrow_key_pressed);
    assert!(s.arrow_right());
    assert_eq!(s.cursor_col, 5);
    assert!(s.arrow_right());
    assert_eq!(s.cursor_col, 5);
    s.cursor_col = 3;
    assert!(s.arrow_left());
    assert_eq!(s.cursor_col, 2);
    assert!(s.arrow_left());
    assert_eq!(s.cursor_col, 2);
}

#[test]
fn arrows_without_render_row() {
    let mut s = TerminalState::new(24, 20);
    s.render_cursor_row = 7;
    assert!(!s.arrow_left());
    assert!(!s.arrow_right());
    assert!(s.arrow_key_pressed);
}

#[test]
fn enter_finishes_composition_and_sends_newline() {
    let mut k = composing("ㅎㅏㄴ");
    let mut s = TerminalState::new(24, 20);
    s.set_arrow_key_protection();
    let r = handle_key_press(&mut k, &mut s, KeyInput::Enter);
    assert_eq!(r.send, vec!['한', '\n']);
    assert!(!r.stop);
    assert!(!k.is_composing);
    assert!(!s.arrow_key_pressed);
}

#[test]
fn backspace_during_composition_stays_local() {
    let mut k = composing("ㅎㅏ");
    let mut s = TerminalState::new(24, 20);
    let r = handle_key_press(&mut k, &mut s, KeyInput::Backspace);
    assert!(r.send.is_empty());
    assert_eq!(k.get_current_char(), Some('ㅎ'));
    let mut plain = KoreanInputState::new();
    let r = handle_key_press(&mut plain, &mut s, KeyInput::Backspace);
    assert_eq!(r.send, vec!['\u{8}']);
}

#[test]
fn vertical_arrows() {
    let mut k = KoreanInputState::new();
    let mut s = TerminalState::new(24, 20);
    assert_eq!(handle_key_press(&mut k, &mut s, KeyInput::ArrowUp).send, vec!['\u{1b}', '[', 'A']);
    assert_eq!(handle_key_press(&mut k, &mut s, KeyInput::ArrowDown).send, vec!['\u{1b}', '[', 'B']);
    let mut c = composing("ㄱㅏ");
    assert_eq!(handle_key_press(&mut c, &mut s, KeyInput::ArrowUp).send, vec!['가']);
    assert!(!c.is_composing);
}

#[test]
fn left_arrow_without_render_row_stops_event_handling() {
    let mut k = KoreanInputState::new();
    let mut s = TerminalState::new(24, 20);
    s.render_cursor_row = 9;
    assert!(handle_key_press(&mut k, &mut s, KeyInput::ArrowLeft).stop);
    assert!(!handle_key_press(&mut k, &mut s, KeyInput::ArrowRight).stop);
}

#[test]
fn ctrl_keys() {
    let mut k = KoreanInputState::new();
    let mut s = TerminalState::new(24, 20);
    assert_eq!(handle_key_press(&mut k, &mut s, KeyInput::Ctrl('C')).send, vec!['\u{3}']);
    assert!(handle_key_press(&mut k, &mut s, KeyInput::Ctrl('M')).send.is_empty());
    print(&mut s, "text");
    let r = handle_key_press(&mut k, &mut s, KeyInput::Ctrl('L'));
    assert_eq!(r.send, vec!['\u{c}']);
    assert_eq!((s.cursor_row, s.cursor_col), (0, 0));
    assert_eq!(s.main_buffer[0][0].ch, ' ');
    assert!(handle_key_press(&mut k, &mut s, KeyInput::Space).send.is_empty());
    assert!(handle_key_press(&mut k, &mut s, KeyInput::Other).send.is_empty());
}

#[test]
fn escape_and_tab() {
    let mut k = KoreanInputState::new();
    assert_eq!(handle_escape(&mut k), vec!['\u{1b}']);
    let mut c = composing("ㄱㅏ");
    assert_eq!(handle_escape(&mut c), vec!['가']);
    assert!(!c.is_composing);
    let mut d = composing("ㄴㅏ");
    assert_eq!(handle_tab(&mut d), vec!['나', '\t']);
    assert_eq!(handle_tab(&mut k), vec!['\t']);
}

#[test]
fn tab_debounce() {
    assert!(tab_debounce_allows(None));
    assert!(tab_debounce_allows(Some(101)));
    assert!(!tab_debounce_allows(Some(100)));
    assert!(!tab_debounce_allows(Some(5)));
}

#[test]
fn tab_press_records_its_time_only_when_sent() {
    let mut k = composing("ㄴㅏ");
    let mut last: Option<std::time::Instant> = None;
    let t0 = std::time::Instant::now();
    assert_eq!(handle_tab_press(&mut k, &mut last, t0, None), vec!['나', '\t']);
    assert_eq!(last, Some(t0));
    assert!(!k.is_composing);
    let t1 = t0 + std::time::Duration::from_millis(50);
    assert!(handle_tab_press(&mut k, &mut last, t1, Some(50)).is_empty());
    assert_eq!(last, Some(t0));
    let t2 = t0 + std::time::Duration::from_millis(150);
    assert_eq!(handle_tab_press(&mut k, &mut last, t2, Some(150)), vec!['\t']);
    assert_eq!(last, Some(t2));
    assert!(handle_tab_press(&mut k, &mut last, t2, None).is_empty());
    assert_eq!(last, Some(t2));
}

#[test]
fn text_events() {
    assert!(text_event_accepted(&"abc 한".chars().collect()));
    assert!(!text_event_accepted(&"a\tb".chars().collect()));
    assert!(!text_event_accepted(&"\n".chars().collect()));
    assert!(!text_event_accepted(&"x\r".chars().collect()));
    assert!(text_event_accepted(&Vec::new()));
}

#[test]
fn resize_terminal_reports_change() {
    let mut s = TerminalState::new(24, 80);
    assert!(!s.resize_terminal(24, 80));
    assert!(s.resize_terminal(30, 100));
    assert_eq!((s.rows, s.cols), (30, 100));
    s.switch_to_alt_screen();
    print(&mut s, "vim");
    assert!(s.resize_terminal(20, 60));
    assert_eq!(s.main_buffer.len(), 1);
    assert_eq!(s.main_buffer[0][0].ch, ' ');
}

#[test]
fn preview_columns_count_wide_characters_twice() {
    let mut s = TerminalState::new(24, 80);
    print(&mut s, "a한b");
    assert_eq!(s.cursor_col, 4);
    assert_eq!(s.composing_preview_columns(), 4);
    s.cursor_col = 2;
    assert_eq!(s.composing_preview_columns(), 3);
    s.cursor_row = 5;
    assert_eq!(s.composing_preview_columns(), 0);
}
