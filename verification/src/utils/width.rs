use vstd::prelude::*;
use unicode_width::UnicodeWidthChar;

verus! {

/// The displayed width in columns that `unicode_width` gives a character
/// (`None` for control characters).
pub uninterp spec fn unicode_char_width(ch: char) -> Option<usize>;

/// Wraps `UnicodeWidthChar::width` of `unicode_width`. Its result is named;
/// beyond the name the contract states what the crate's lookup code shows:
/// the C0 and C1 control characters (below U+0020, and U+007F up to U+00A0)
/// have no width, printable ASCII is one column wide, and no width exceeds 3.
/// Which width each other character has (the Unicode tables) is left unsaid.
#[verifier::external_body]
pub(crate) fn char_width(ch: char) -> (w: Option<usize>)
    ensures
        w == unicode_char_width(ch),
        w is None <==> ((ch as u32) < 0x20 || (0x7F <= (ch as u32) && (ch as u32) < 0xA0)),
        (0x20 <= (ch as u32) && (ch as u32) < 0x7F) ==> w == Some(1usize),
        w matches Some(n) ==> n <= 3,
{
    ch.width()
}

/// The width a cell advances the cursor by: the character's width, control
/// characters counting as one column.
pub open spec fn cell_width(ch: char) -> usize {
    match unicode_char_width(ch) {
        Some(w) => w,
        None => 1,
    }
}

/// Exec form of `cell_width`.
pub fn cell_width_of(ch: char) -> (w: usize)
    ensures
        w == cell_width(ch),
        w <= 3,
{
    match char_width(ch) {
        Some(w) => w,
        None => 1,
    }
}

} // verus!
