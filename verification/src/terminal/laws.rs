use vstd::prelude::*;
use crate::terminal::state::{
    MAX_HISTORY_LINES, MAX_MAIN_BUFFER_COLS, TerminalModel, TerminalState, blank_row, blank_rows,
    default_cell,
};
use crate::terminal::performer::{next_tab_stop, sgr_code, sgr_from, spec_sgr};
use crate::terminal::state::{AnsiColor, TerminalCell, pad_rows, spec_protection_active};
use crate::utils::color::{Rgba, spec_ansi_256_to_rgb};
use crate::utils::width::cell_width;
use std::time::Instant;

verus! {

/// One change the library can make to a terminal, named by the function that
/// makes it; the arguments are those the function's contract speaks of (the
/// time the arrow-key protection records, whether a backspace is protected).
pub enum TerminalOp {
    PutChar(char),
    Newline,
    Backspace,
    CarriageReturn,
    MoveCursorTo(usize, usize),
    ClearScreen,
    Resize(usize, usize),
    ResizeTerminal(usize, usize),
    SwitchToAltScreen,
    SwitchToMainScreen,
    SaveCursor,
    RestoreCursor,
    MarkDirty,
    SetProtection(Option<Instant>),
    ClearProtection,
    Execute(u8, bool),
    CsiDispatch(Seq<Seq<u16>>, Seq<u8>, char, Option<Instant>),
    UpdateRenderBuffer,
    ArrowLeft(Option<Instant>),
    ArrowRight(Option<Instant>),
}

/// The model after `op`, as the contract of the function that performs it states.
pub open spec fn apply_op(m: TerminalModel, op: TerminalOp) -> TerminalModel {
    match op {
        TerminalOp::PutChar(ch) => m.spec_put_char(ch),
        TerminalOp::Newline => m.spec_newline(),
        TerminalOp::Backspace => m.spec_backspace(),
        TerminalOp::CarriageReturn => m.spec_carriage_return(),
        TerminalOp::MoveCursorTo(row, col) => m.spec_move_cursor_to(row, col),
        TerminalOp::ClearScreen => m.spec_clear_screen(),
        TerminalOp::Resize(rows, cols) => m.spec_resize(rows, cols),
        TerminalOp::ResizeTerminal(rows, cols) => m.spec_resize_terminal(rows, cols).0,
        TerminalOp::SwitchToAltScreen => m.spec_switch_to_alt_screen(),
        TerminalOp::SwitchToMainScreen => m.spec_switch_to_main_screen(),
        TerminalOp::SaveCursor => m.spec_save_cursor(),
        TerminalOp::RestoreCursor => m.spec_restore_cursor(),
        TerminalOp::MarkDirty => m.dirty(),
        TerminalOp::SetProtection(t) => m.with_protection(t),
        TerminalOp::ClearProtection => m.without_protection(),
        TerminalOp::Execute(byte, protected) => m.spec_execute(byte, protected).0,
        TerminalOp::CsiDispatch(p, inter, c, t) => m.spec_csi_dispatch(p, inter, c, t).0,
        TerminalOp::UpdateRenderBuffer => m.spec_update_render_buffer(),
        TerminalOp::ArrowLeft(t) => m.spec_arrow_left(t).0,
        TerminalOp::ArrowRight(t) => m.spec_arrow_right(t).0,
    }
}

/// The model after the operations `ops`, first to last.
pub open spec fn apply_ops(m: TerminalModel, ops: Seq<TerminalOp>) -> TerminalModel
    decreases ops.len(),
{
    if ops.len() == 0 {
        m
    } else {
        apply_op(apply_ops(m, ops.drop_last()), ops.last())
    }
}

/// `CSI ? 1049 h` (when `c` is `h`) or `CSI ? 1049 l` (when `c` is `l`).
pub open spec fn is_alt_screen_mode(p: Seq<Seq<u16>>, inter: Seq<u8>) -> bool {
    p.len() > 0 && inter.contains(63u8) && p[0][0] == 1049
}

/// The operation leaves the alternative screen.
pub open spec fn leaves_alt_screen(op: TerminalOp) -> bool {
    match op {
        TerminalOp::SwitchToMainScreen => true,
        TerminalOp::CsiDispatch(p, inter, c, _) => c == 'l' && is_alt_screen_mode(p, inter),
        _ => false,
    }
}

/// The operation saves the cursor or enters the alternative screen (which
/// saves the main screen's cursor too).
pub open spec fn saves_main_cursor(op: TerminalOp) -> bool {
    match op {
        TerminalOp::SwitchToAltScreen | TerminalOp::SaveCursor => true,
        TerminalOp::CsiDispatch(p, inter, c, _) => c == 's' || (c == 'h' && is_alt_screen_mode(p, inter)),
        _ => false,
    }
}

/// On the alternative screen, every operation but those that leave it keeps
/// the main screen's lines and cursor put aside when it was entered.
pub proof fn lemma_op_keeps_main_screen_aside(s: TerminalModel, op: TerminalOp)
    requires
        s.is_alt_screen,
        !leaves_alt_screen(op),
    ensures
        apply_op(s, op).is_alt_screen,
        apply_op(s, op).main_buffer_backup == s.main_buffer_backup,
        apply_op(s, op).saved_cursor_main == s.saved_cursor_main,
{
}

/// On the main screen, every operation but those that save the cursor or
/// enter the alternative screen keeps the saved cursor, and stays on the main screen.
pub proof fn lemma_op_keeps_saved_cursor(s: TerminalModel, op: TerminalOp)
    requires
        !s.is_alt_screen,
        !saves_main_cursor(op),
    ensures
        !apply_op(s, op).is_alt_screen,
        apply_op(s, op).saved_cursor_main == s.saved_cursor_main,
{
}

proof fn lemma_ops_keep_main_screen_aside(s: TerminalModel, ops: Seq<TerminalOp>)
    requires
        s.is_alt_screen,
        forall|i: int| 0 <= i < ops.len() ==> !leaves_alt_screen(#[trigger] ops[i]),
    ensures
        apply_ops(s, ops).is_alt_screen,
        apply_ops(s, ops).main_buffer_backup == s.main_buffer_backup,
        apply_ops(s, ops).saved_cursor_main == s.saved_cursor_main,
    decreases ops.len(),
{
    if ops.len() > 0 {
        let init = ops.drop_last();
        assert forall|i: int| 0 <= i < init.len() implies !leaves_alt_screen(#[trigger] init[i]) by {
            assert(init[i] == ops[i]);
        }
        lemma_ops_keep_main_screen_aside(s, init);
        assert(!leaves_alt_screen(ops[ops.len() - 1]));
        lemma_op_keeps_main_screen_aside(apply_ops(s, init), ops.last());
    }
}

proof fn lemma_ops_keep_saved_cursor(s: TerminalModel, ops: Seq<TerminalOp>)
    requires
        !s.is_alt_screen,
        forall|i: int| 0 <= i < ops.len() ==> !saves_main_cursor(#[trigger] ops[i]),
    ensures
        !apply_ops(s, ops).is_alt_screen,
        apply_ops(s, ops).saved_cursor_main == s.saved_cursor_main,
    decreases ops.len(),
{
    if ops.len() > 0 {
        let init = ops.drop_last();
        assert forall|i: int| 0 <= i < init.len() implies !saves_main_cursor(#[trigger] init[i]) by {
            assert(init[i] == ops[i]);
        }
        lemma_ops_keep_saved_cursor(s, init);
        assert(!saves_main_cursor(ops[ops.len() - 1]));
        lemma_op_keeps_saved_cursor(apply_ops(s, init), ops.last());
    }
}

/// Leaving the alternative screen gives back the main screen as it was when
/// the alternative screen was entered, whatever was done on the alternative
/// screen in between (short of leaving it); on the main screen, leaving
/// changes nothing.
pub proof fn lemma_alt_screen_restored_after(m: TerminalModel, ops: Seq<TerminalOp>)
    requires
        !m.is_alt_screen,
        forall|i: int| 0 <= i < ops.len() ==> !leaves_alt_screen(#[trigger] ops[i]),
    ensures
        ({
            let back = apply_ops(m.spec_switch_to_alt_screen(), ops).spec_switch_to_main_screen();
            &&& back.main_buffer == m.main_buffer
            &&& back.cursor_row == m.cursor_row
            &&& back.cursor_col == m.cursor_col
            &&& !back.is_alt_screen
            &&& back.main_buffer_backup is None
            &&& back.render_buffer_dirty
        }),
        m.spec_switch_to_main_screen() == m,
{
    lemma_ops_keep_main_screen_aside(m.spec_switch_to_alt_screen(), ops);
}

/// Restoring the cursor brings it back to where it was saved on the main
/// screen (its column within the main buffer's width), whatever was done in
/// between short of saving again or entering the alternative screen, as long
/// as the saved row still exists.
pub proof fn lemma_cursor_restored_after(m: TerminalModel, ops: Seq<TerminalOp>)
    requires
        !m.is_alt_screen,
        forall|i: int| 0 <= i < ops.len() ==> !saves_main_cursor(#[trigger] ops[i]),
        apply_ops(m.spec_save_cursor(), ops).fits_machine(),
        apply_ops(m.spec_save_cursor(), ops).main_buffer.len() > m.cursor_row,
    ensures
        ({
            let r = apply_ops(m.spec_save_cursor(), ops).spec_restore_cursor();
            &&& r.cursor_row == m.cursor_row
            &&& r.cursor_col == (if m.cursor_col < MAX_MAIN_BUFFER_COLS - 1 {
                m.cursor_col as int
            } else {
                MAX_MAIN_BUFFER_COLS - 1
            })
            &&& r.saved_cursor_main == (m.cursor_row, m.cursor_col)
            &&& !r.is_alt_screen
        }),
{
    lemma_ops_keep_saved_cursor(m.spec_save_cursor(), ops);
}

/// Every terminal's model has buffers whose lengths fit in a `usize`.
pub proof fn lemma_state_fits_machine(s: TerminalState)
    ensures
        s@.fits_machine(),
{
    assert(s.main_buffer@.len() == s.main_buffer.len());
    assert(s.render_buffer@.len() == s.render_buffer.len());
}

/// Leaving the alternative screen gives back the main screen as it was when
/// the alternative screen was entered: the same lines and the same cursor.
pub proof fn lemma_alt_screen_roundtrip(m: TerminalModel)
    requires
        !m.is_alt_screen,
    ensures
        ({
            let back = m.spec_switch_to_alt_screen().spec_switch_to_main_screen();
            &&& back.main_buffer == m.main_buffer
            &&& back.cursor_row == m.cursor_row
            &&& back.cursor_col == m.cursor_col
            &&& !back.is_alt_screen
            &&& back.main_buffer_backup is None
        }),
{
}

/// The alternative screen starts blank, one full-width row per screen row,
/// with the cursor home.
pub proof fn lemma_alt_screen_starts_clean(m: TerminalModel)
    requires
        !m.is_alt_screen,
    ensures
        ({
            let alt = m.spec_switch_to_alt_screen();
            &&& alt.main_buffer.len() == m.rows
            &&& forall|i: int| 0 <= i < m.rows ==> #[trigger] alt.main_buffer[i] == blank_row(MAX_MAIN_BUFFER_COLS as nat)
            &&& alt.cursor_row == 0 && alt.cursor_col == 0
        }),
{
}

/// Moving the cursor keeps it inside the screen (alternative screen) or
/// inside the buffer and the main buffer's width.
pub proof fn lemma_move_cursor_in_bounds(m: TerminalModel, row: usize, col: usize)
    requires
        m.fits_machine(),
        m.move_cursor_defined(),
    ensures
        ({
            let n = m.spec_move_cursor_to(row, col);
            &&& m.is_alt_screen ==> n.cursor_row < m.rows && n.cursor_col < m.cols
            &&& !m.is_alt_screen ==> n.cursor_row < m.main_buffer.len() && n.cursor_col < MAX_MAIN_BUFFER_COLS
        }),
{
}

/// Restoring a saved cursor brings it back to where it was saved, when that
/// position is inside the bounds the cursor is clamped to.
pub proof fn lemma_save_restore_cursor(m: TerminalModel)
    requires
        m.fits_machine(),
        m.move_cursor_defined(),
        m.is_alt_screen ==> m.cursor_row < m.rows && m.cursor_col < m.cols,
        !m.is_alt_screen ==> m.cursor_row < m.main_buffer.len() && m.cursor_col < MAX_MAIN_BUFFER_COLS,
    ensures
        m.spec_save_cursor().spec_restore_cursor().cursor_row == m.cursor_row,
        m.spec_save_cursor().spec_restore_cursor().cursor_col == m.cursor_col,
{
    let s = m.spec_save_cursor();
    assert(s.saved_cursor() == (m.cursor_row, m.cursor_col));
    assert(s.is_alt_screen == m.is_alt_screen);
    assert(s.main_buffer == m.main_buffer);
    assert(s.rows == m.rows && s.cols == m.cols);
    let r = s.spec_restore_cursor();
    assert(r == s.spec_move_cursor_to(m.cursor_row, m.cursor_col));
    assert(r.cursor_row == m.cursor_row);
}

/// A new line never lets the history grow past `MAX_HISTORY_LINES` and leaves
/// the cursor at the start of an existing row.
pub proof fn lemma_newline_bounds(m: TerminalModel)
    requires
        m.newline_defined(),
    ensures
        m.spec_newline().main_buffer.len() <= MAX_HISTORY_LINES,
        m.spec_newline().cursor_row < m.spec_newline().main_buffer.len(),
        m.spec_newline().cursor_col == 0,
{
}

/// Clearing the screen leaves one blank row and the cursor home.
pub proof fn lemma_clear_screen_home(m: TerminalModel)
    ensures
        m.spec_clear_screen().main_buffer == seq![blank_row(MAX_MAIN_BUFFER_COLS as nat)],
        m.spec_clear_screen().cursor_row == 0,
        m.spec_clear_screen().cursor_col == 0,
{
    assert(blank_rows(1) =~= seq![blank_row(MAX_MAIN_BUFFER_COLS as nat)]);
}

/// After a resize to a new size the buffer has a row and the cursor is on
/// one, within the new width.
pub proof fn lemma_resize_cursor_in_buffer(m: TerminalModel, rows: usize, cols: usize)
    requires
        !(m.rows == rows && m.cols == cols),
    ensures
        m.spec_resize(rows, cols).main_buffer.len() >= 1,
        m.spec_resize(rows, cols).cursor_row < m.spec_resize(rows, cols).main_buffer.len(),
        cols >= 1 ==> m.spec_resize(rows, cols).cursor_col < cols,
{
}

/// A backspace right after printing a one-column character takes the cursor
/// back to where the character went and blanks that cell.
pub proof fn lemma_backspace_erases_printed(m: TerminalModel, ch: char)
    requires
        m.put_char_defined(ch),
        cell_width(ch) == 1,
    ensures
        ({
            let after = m.spec_put_char(ch).spec_backspace();
            &&& after.cursor_col == m.cursor_col
            &&& after.cursor_row == m.cursor_row
            &&& after.main_buffer[m.cursor_row as int][m.cursor_col as int] == default_cell()
        }),
{
}

/// An SGR colour code picks a palette entry for one side of the colour and
/// leaves everything else as it was: 30-37 the foreground from entries 0-7,
/// 90-97 the foreground from the bright entries 8-15, 40-47 the background
/// from entries 0-7, 100-107 the background from entries 8-15; 39 gives back
/// the default foreground (the palette's white, entry 7) and 49 the
/// transparent background.
pub proof fn lemma_sgr_colour_codes(color: AnsiColor, code: u16)
    ensures
        ({
            let after = spec_sgr(color, seq![seq![code]]);
            &&& 30 <= code <= 37 ==> after.foreground == spec_ansi_256_to_rgb((code - 30) as u8)
                && after.background == color.background
            &&& 90 <= code <= 97 ==> after.foreground == spec_ansi_256_to_rgb((code - 90 + 8) as u8)
                && after.background == color.background
            &&& 40 <= code <= 47 ==> after.background == spec_ansi_256_to_rgb((code - 40) as u8)
                && after.foreground == color.foreground
            &&& 100 <= code <= 107 ==> after.background == spec_ansi_256_to_rgb((code - 100 + 8) as u8)
                && after.foreground == color.foreground
            &&& code == 39 ==> after.foreground == spec_ansi_256_to_rgb(7) && after.background == color.background
            &&& code == 49 ==> after.background == (Rgba { r: 0, g: 0, b: 0, a: 0 })
                && after.foreground == color.foreground
            &&& (30 <= code <= 49 || 90 <= code <= 107) && code != 38 && code != 48 ==> {
                &&& after.bold == color.bold
                &&& after.italic == color.italic
                &&& after.underline == color.underline
                &&& after.reverse == color.reverse
            }
        }),
{
    reveal_with_fuel(sgr_from, 2);
}

/// SGR 0, and SGR without parameters, reset to white on a transparent
/// background without style; codes 1, 3, 4 and 7 switch bold, italic,
/// underline and reverse on and 22, 23, 24 and 27 switch them off, each
/// touching nothing else.
pub proof fn lemma_sgr_attribute_codes(color: AnsiColor, code: u16)
    ensures
        ({
            let after = spec_sgr(color, seq![seq![code]]);
            let white = Rgba { r: 255, g: 255, b: 255, a: 255 };
            let clear = Rgba { r: 0, g: 0, b: 0, a: 0 };
            &&& code == 0 ==> after == (AnsiColor {
                foreground: white,
                background: clear,
                bold: false,
                italic: false,
                underline: false,
                reverse: false,
            })
            &&& code == 1 ==> after == (AnsiColor { bold: true, ..color })
            &&& code == 3 ==> after == (AnsiColor { italic: true, ..color })
            &&& code == 4 ==> after == (AnsiColor { underline: true, ..color })
            &&& code == 7 ==> after == (AnsiColor { reverse: true, ..color })
            &&& code == 22 ==> after == (AnsiColor { bold: false, ..color })
            &&& code == 23 ==> after == (AnsiColor { italic: false, ..color })
            &&& code == 24 ==> after == (AnsiColor { underline: false, ..color })
            &&& code == 27 ==> after == (AnsiColor { reverse: false, ..color })
        }),
        spec_sgr(color, Seq::empty()) == spec_sgr(color, seq![seq![0u16]]),
{
    reveal_with_fuel(sgr_from, 2);
}

/// Extended colours: `38;5;n` and `48;5;n` take palette entry `n` (its low
/// byte) for the foreground or the background, and `38;2;r;g;b` and
/// `48;2;r;g;b` the opaque colour with those channels (each its low byte);
/// the other side and the style stay as they were.
pub proof fn lemma_sgr_extended_colours(color: AnsiColor, n: u16, r: u16, g: u16, b: u16)
    ensures
        spec_sgr(color, seq![seq![38u16], seq![5u16], seq![n]])
            == (AnsiColor { foreground: spec_ansi_256_to_rgb(n as u8), ..color }),
        spec_sgr(color, seq![seq![48u16], seq![5u16], seq![n]])
            == (AnsiColor { background: spec_ansi_256_to_rgb(n as u8), ..color }),
        spec_sgr(color, seq![seq![38u16], seq![2u16], seq![r], seq![g], seq![b]])
            == (AnsiColor { foreground: Rgba { r: r as u8, g: g as u8, b: b as u8, a: 255 }, ..color }),
        spec_sgr(color, seq![seq![48u16], seq![2u16], seq![r], seq![g], seq![b]])
            == (AnsiColor { background: Rgba { r: r as u8, g: g as u8, b: b as u8, a: 255 }, ..color }),
{
    reveal_with_fuel(sgr_from, 2);
}

/// Several SGR codes in one sequence act one after another: `a;b` does what
/// `a` and then `b` do (for codes that take no further parameters).
pub proof fn lemma_sgr_codes_in_turn(color: AnsiColor, a: u16, b: u16)
    requires
        a != 38 && a != 48,
        b != 38 && b != 48,
    ensures
        spec_sgr(color, seq![seq![a], seq![b]]) == spec_sgr(spec_sgr(color, seq![seq![a]]), seq![seq![b]]),
{
    let p = seq![seq![a], seq![b]];
    let pa = seq![seq![a]];
    let pb = seq![seq![b]];
    let (c1, k1) = sgr_code(color, p, 0, a);
    assert(sgr_code(color, pa, 0, a) == (c1, k1));
    assert(k1 == 0);
    let (c2, k2) = sgr_code(c1, p, 1, b);
    assert(sgr_code(c1, pb, 0, b) == (c2, k2));
    assert(k2 == 0);
    assert(sgr_from(c2, p, 2) == c2);
    assert(sgr_from(c1, p, 1) == c2);
    assert(sgr_from(color, p, 0) == c2);
    assert(sgr_from(c1, pa, 1) == c1);
    assert(sgr_from(color, pa, 0) == c1);
    assert(sgr_from(c2, pb, 1) == c2);
    assert(sgr_from(c1, pb, 0) == c2);
}

/// A tab stop is the first multiple of eight past the column.
pub proof fn lemma_next_tab_stop(col: usize)
    ensures
        next_tab_stop(col) % 8 == 0,
        col < next_tab_stop(col) <= col + 8,
{
    assert(next_tab_stop(col) == (col / 8) * 8 + 8);
}

/// A recent arrow key protects against a backspace for less than 300 ms and
/// only while the press is recorded.
pub proof fn lemma_protection_window(pressed: bool, ms: u128)
    ensures
        spec_protection_active(pressed, Some(ms)) <==> pressed && ms < 300,
        !spec_protection_active(pressed, None),
{
}

/// Printing writes the character, in the current colour, at the cursor and
/// moves the cursor right by the character's width, on the same row; a
/// double-width character marks the next cell as its continuation (where the
/// row has it); the other rows, and the cells before the cursor, are kept.
pub proof fn lemma_put_char_writes(m: TerminalModel, ch: char)
    requires
        m.put_char_defined(ch),
    ensures
        ({
            let after = m.spec_put_char(ch);
            let r = m.cursor_row as int;
            let c = m.cursor_col as int;
            let before = pad_rows(m.main_buffer, m.cursor_row as nat + 1);
            &&& after.main_buffer.len() == before.len()
            &&& after.main_buffer[r][c] == (TerminalCell { ch, color: m.current_color })
            &&& after.cursor_row == m.cursor_row
            &&& after.cursor_col == c + cell_width(ch)
            &&& (cell_width(ch) == 2 && c + 1 < after.main_buffer[r].len())
                ==> after.main_buffer[r][c + 1] == (TerminalCell { ch: '\0', color: m.current_color })
            &&& forall|j: int| 0 <= j < c && j < before[r].len() ==> #[trigger] after.main_buffer[r][j] == before[r][j]
            &&& forall|i: int| 0 <= i < before.len() && i != r ==> #[trigger] after.main_buffer[i] == before[i]
            &&& !after.arrow_key_pressed
            &&& after.render_buffer_dirty
        }),
{
}

} // verus!
