use wterm::utils::width::cell_width_of;

#[test]
fn widths_of_common_characters() {
    assert_eq!(cell_width_of('a'), 1);
    assert_eq!(cell_width_of('가'), 2);
    assert_eq!(cell_width_of('ㄱ'), 2);
    assert_eq!(cell_width_of('\u{301}'), 0);
}

#[test]
fn control_characters_take_one_cell() {
    assert_eq!(cell_width_of('\u{1b}'), 1);
    assert_eq!(cell_width_of('\n'), 1);
    assert_eq!(cell_width_of('\u{7f}'), 1);
}
