use wterm::terminal::state::{TerminalCell, TerminalState};

fn print(state: &mut TerminalState, text: &str) {
    for ch in text.chars() {
        assert!(state.print(ch));
    }
}

fn render_text(state: &TerminalState, row: usize) -> String {
    state.render_buffer[row].iter().filter(|c| c.ch != '\0').map(|c| c.ch).collect::<String>().trim_end().to_string()
}

#[test]
fn short_rows_are_copied() {
    let mut s = TerminalState::new(24, 10);
    print(&mut s, "hello");
    s.newline();
    print(&mut s, "x");
    assert!(s.try_update_render_buffer_if_dirty());
    assert_eq!(s.render_buffer.len(), 2);
    assert_eq!(render_text(&s, 0), "hello");
    assert_eq!(render_text(&s, 1), "x");
    assert!(s.render_buffer.iter().all(|r| r.len() == 10));
    assert_eq!((s.render_cursor_row, s.render_cursor_col), (1, 1));
}

#[test]
fn long_rows_wrap() {
    let mut s = TerminalState::new(24, 4);
    print(&mut s, "abcdefghij");
    s.update_render_buffer();
    assert_eq!(s.render_buffer.len(), 3);
    assert_eq!(render_text(&s, 0), "abcd");
    assert_eq!(render_text(&s, 1), "efgh");
    assert_eq!(render_text(&s, 2), "ij");
    // The cursor is past the text: last render row, last column.
    assert_eq!((s.render_cursor_row, s.render_cursor_col), (2, 3));
}

#[test]
fn cursor_inside_a_wrapped_row() {
    let mut s = TerminalState::new(24, 4);
    print(&mut s, "abcdefghij");
    s.cursor_col = 5;
    s.update_render_buffer();
    assert_eq!((s.render_cursor_row, s.render_cursor_col), (1, 1));
}

#[test]
fn wide_characters_do_not_split() {
    let mut s = TerminalState::new(24, 4);
    print(&mut s, "한국어");
    s.update_render_buffer();
    assert_eq!(s.render_buffer.len(), 2);
    assert_eq!(s.render_buffer[0][0].ch, '한');
    assert_eq!(s.render_buffer[0][1].ch, '\0');
    assert_eq!(s.render_buffer[0][2].ch, '국');
    assert_eq!(s.render_buffer[0][3].ch, '\0');
    assert_eq!(s.render_buffer[1][0].ch, '어');
    assert_eq!(s.render_buffer[1][1].ch, '\0');
    assert_eq!(s.render_buffer[1][2], TerminalCell::default());
    // Fits exactly: copied, not wrapped.
    let mut t = TerminalState::new(24, 6);
    print(&mut t, "한국어");
    t.update_render_buffer();
    assert_eq!(t.render_buffer.len(), 1);
}

#[test]
fn cursor_beyond_short_row_is_clamped_to_width() {
    let mut s = TerminalState::new(24, 10);
    s.cursor_col = 50;
    s.update_render_buffer();
    assert_eq!((s.render_cursor_row, s.render_cursor_col), (0, 10));
}

#[test]
fn wrapping_wider_than_the_window_is_refused() {
    let mut s = TerminalState::new(24, 1);
    print(&mut s, "ab한");
    assert!(!s.render_buffer_can_update());
    let rows_before = s.render_buffer.len();
    assert!(!s.try_update_render_buffer_if_dirty());
    assert_eq!(s.render_buffer.len(), rows_before);
    assert!(s.render_buffer_dirty);
}

#[test]
fn clean_buffer_is_not_rebuilt() {
    let mut s = TerminalState::new(24, 10);
    s.render_buffer.clear();
    assert!(s.try_update_render_buffer_if_dirty());
    assert!(s.render_buffer.is_empty());
}

#[test]
fn wrapping_keeps_the_characters_in_order() {
    let mut s = TerminalState::new(24, 5);
    let text = "ab한글cd가나e";
    print(&mut s, text);
    s.update_render_buffer();
    let shown: String = (0..s.render_buffer.len()).map(|r| render_text(&s, r)).collect();
    assert_eq!(shown, text);
}

#[test]
fn render_cursor_sits_on_the_cursor_cell() {
    let mut s = TerminalState::new(24, 5);
    print(&mut s, "ab한글cd가나e");
    for col in 0..s.main_buffer[0].len() {
        let cell = s.main_buffer[0][col];
        if cell.ch == '\0' || cell.ch == ' ' {
            continue;
        }
        s.cursor_col = col;
        s.update_render_buffer();
        assert_eq!(s.render_buffer[s.render_cursor_row][s.render_cursor_col], cell);
    }
    s.cursor_col = 4;
    s.update_render_buffer();
    assert_eq!((s.render_cursor_row, s.render_cursor_col), (1, 0));
    assert_eq!(s.render_buffer[1][0].ch, '글');
}
