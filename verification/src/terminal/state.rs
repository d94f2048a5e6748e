use vstd::prelude::*;
use std::time::Instant;
use std::time::Duration;
use std::collections::VecDeque;
use crate::utils::color::Rgba;
use crate::utils::width::{cell_width, cell_width_of};

verus! {

/// Rows kept in the history before the oldest are dropped.
pub const MAX_HISTORY_LINES: usize = 1000;

/// Width of every row the main buffer creates, so that text outlives a narrow window.
pub const MAX_MAIN_BUFFER_COLS: usize = 1000;

#[verifier::external_type_specification]
#[verifier::external_body]
pub struct ExInstant(Instant);

/// Wraps `Instant::now`; nothing is stated of the time it reads.
#[verifier::external_body]
fn instant_now() -> Instant {
    Instant::now()
}

/// Wraps `Instant::elapsed`; nothing is stated of the clock it reads.
#[verifier::external_body]
fn instant_elapsed(t: &Instant) -> Duration {
    t.elapsed()
}

/// Wraps `Duration::as_millis`; the duration is opaque here, so nothing is
/// stated of the number of milliseconds.
#[verifier::external_body]
fn duration_as_millis(d: &Duration) -> u128 {
    d.as_millis()
}

/// Wraps `VecDeque`'s `IndexMut`: a mutable reference to element `i`, which
/// must exist (std panics otherwise). It refers to that element as it is, and
/// what is written through it changes that element and no other.
#[verifier::external_body]
pub(crate) fn deque_index_mut<T>(d: &mut VecDeque<T>, i: usize) -> (e: &mut T)
    requires
        i < old(d)@.len(),
    ensures
        *e == old(d)@[i as int],
        final(d)@ == old(d)@.update(i as int, *final(e)),
{
    &mut d[i]
}

/// Text attributes of a cell: colours and style flags.
#[derive(Clone, Copy, Debug, PartialEq, Eq, Structural)]
pub struct AnsiColor {
    pub foreground: Rgba,
    pub background: Rgba,
    pub bold: bool,
    pub italic: bool,
    pub underline: bool,
    pub reverse: bool,
}

/// White text on a transparent background, no style.
pub open spec fn default_color() -> AnsiColor {
    AnsiColor {
        foreground: Rgba { r: 255, g: 255, b: 255, a: 255 },
        background: Rgba { r: 0, g: 0, b: 0, a: 0 },
        bold: false,
        italic: false,
        underline: false,
        reverse: false,
    }
}

impl Default for AnsiColor {
    fn default() -> (c: Self)
        ensures
            c == default_color(),
    {
        AnsiColor {
            foreground: Rgba::white(),
            background: Rgba::transparent(),
            bold: false,
            italic: false,
            underline: false,
            reverse: false,
        }
    }
}

/// One character cell of the screen. A wide character is followed by a cell
/// holding `'\0'`, which marks the continuation.
#[derive(Clone, Copy, Debug, PartialEq, Eq, Structural)]
pub struct TerminalCell {
    pub ch: char,
    pub color: AnsiColor,
}

/// A space in the default colours.
pub open spec fn default_cell() -> TerminalCell {
    TerminalCell { ch: ' ', color: default_color() }
}

impl Default for TerminalCell {
    fn default() -> (c: Self)
        ensures
            c == default_cell(),
    {
        TerminalCell { ch: ' ', color: AnsiColor::default() }
    }
}

/// A row of `n` blank cells.
pub open spec fn blank_row(n: nat) -> Seq<TerminalCell> {
    Seq::new(n, |i: int| default_cell())
}

/// `rows` blank rows of the main buffer's width.
pub open spec fn blank_rows(rows: nat) -> Seq<Seq<TerminalCell>> {
    Seq::new(rows, |i: int| blank_row(MAX_MAIN_BUFFER_COLS as nat))
}

/// `row` cut or padded with blank cells to length `n`.
pub open spec fn resize_row(row: Seq<TerminalCell>, n: nat) -> Seq<TerminalCell> {
    if n <= row.len() {
        row.subrange(0, n as int)
    } else {
        row + blank_row((n - row.len()) as nat)
    }
}

/// `rows` extended with blank rows of the main buffer's width to at least `n` rows.
pub open spec fn pad_rows(rows: Seq<Seq<TerminalCell>>, n: nat) -> Seq<Seq<TerminalCell>> {
    if rows.len() >= n {
        rows
    } else {
        rows + blank_rows((n - rows.len()) as nat)
    }
}

/// The rows of a buffer as sequences.
pub open spec fn rows_view(rows: Seq<Vec<TerminalCell>>) -> Seq<Seq<TerminalCell>> {
    rows.map_values(|r: Vec<TerminalCell>| r@)
}

/// A row without blank or continuation cells at its end: the text ends here.
pub open spec fn text_end(row: Seq<TerminalCell>) -> nat
    decreases row.len(),
{
    if row.len() == 0 {
        0
    } else if row.last().ch == ' ' || row.last().ch == '\0' {
        text_end(row.drop_last())
    } else {
        row.len()
    }
}

/// The terminal as the contracts speak of it: the buffers as sequences of rows.
pub struct TerminalModel {
    pub main_buffer: Seq<Seq<TerminalCell>>,
    pub render_buffer: Seq<Seq<TerminalCell>>,
    pub render_buffer_dirty: bool,
    pub cursor_row: usize,
    pub cursor_col: usize,
    pub render_cursor_row: usize,
    pub render_cursor_col: usize,
    pub rows: usize,
    pub cols: usize,
    pub current_color: AnsiColor,
    pub arrow_key_pressed: bool,
    pub arrow_key_time: Option<Instant>,
    pub is_alt_screen: bool,
    pub saved_cursor_main: (usize, usize),
    pub saved_cursor_alt: (usize, usize),
    pub cursor_visible: bool,
    pub main_buffer_backup: Option<Seq<Seq<TerminalCell>>>,
}

/// The screen: the logical lines (main buffer), the lines as wrapped to the
/// window width (render buffer), the cursor in both, and the modes.
pub struct TerminalState {
    pub main_buffer: VecDeque<Vec<TerminalCell>>,
    pub render_buffer: Vec<Vec<TerminalCell>>,
    pub render_buffer_dirty: bool,
    pub cursor_row: usize,
    pub cursor_col: usize,
    pub render_cursor_row: usize,
    pub render_cursor_col: usize,
    pub rows: usize,
    pub cols: usize,
    pub current_color: AnsiColor,
    pub arrow_key_pressed: bool,
    pub arrow_key_time: Option<Instant>,
    pub is_alt_screen: bool,
    pub saved_cursor_main: (usize, usize),
    pub saved_cursor_alt: (usize, usize),
    pub cursor_visible: bool,
    pub main_buffer_backup: Option<VecDeque<Vec<TerminalCell>>>,
}

impl Clone for TerminalState {
    fn clone(&self) -> Self {
        TerminalState {
            main_buffer: self.main_buffer.clone(),
            render_buffer: self.render_buffer.clone(),
            render_buffer_dirty: self.render_buffer_dirty,
            cursor_row: self.cursor_row,
            cursor_col: self.cursor_col,
            render_cursor_row: self.render_cursor_row,
            render_cursor_col: self.render_cursor_col,
            rows: self.rows,
            cols: self.cols,
            current_color: self.current_color,
            arrow_key_pressed: self.arrow_key_pressed,
            arrow_key_time: self.arrow_key_time,
            is_alt_screen: self.is_alt_screen,
            saved_cursor_main: self.saved_cursor_main,
            saved_cursor_alt: self.saved_cursor_alt,
            cursor_visible: self.cursor_visible,
            main_buffer_backup: self.main_buffer_backup.clone(),
        }
    }
}

impl View for TerminalState {
    type V = TerminalModel;

    open spec fn view(&self) -> TerminalModel {
        TerminalModel {
            main_buffer: rows_view(self.main_buffer@),
            render_buffer: rows_view(self.render_buffer@),
            render_buffer_dirty: self.render_buffer_dirty,
            cursor_row: self.cursor_row,
            cursor_col: self.cursor_col,
            render_cursor_row: self.render_cursor_row,
            render_cursor_col: self.render_cursor_col,
            rows: self.rows,
            cols: self.cols,
            current_color: self.current_color,
            arrow_key_pressed: self.arrow_key_pressed,
            arrow_key_time: self.arrow_key_time,
            is_alt_screen: self.is_alt_screen,
            saved_cursor_main: self.saved_cursor_main,
            saved_cursor_alt: self.saved_cursor_alt,
            cursor_visible: self.cursor_visible,
            main_buffer_backup: match self.main_buffer_backup {
                Some(b) => Some(rows_view(b@)),
                None => None,
            },
        }
    }
}

impl TerminalModel {
    /// The buffers have at most `usize::MAX` rows, as any in memory do.
    pub open spec fn fits_machine(self) -> bool {
        &&& self.main_buffer.len() <= usize::MAX
        &&& self.render_buffer.len() <= usize::MAX
    }

    pub open spec fn dirty(self) -> TerminalModel {
        TerminalModel { render_buffer_dirty: true, ..self }
    }

    pub open spec fn without_protection(self) -> TerminalModel {
        TerminalModel { arrow_key_pressed: false, arrow_key_time: None, ..self }
    }

    /// Arrow-key protection switched on at the time `t`.
    pub open spec fn with_protection(self, t: Option<Instant>) -> TerminalModel {
        TerminalModel { arrow_key_pressed: true, arrow_key_time: t, ..self }
    }

    /// The cursor moved, the screen due for redrawing.
    pub open spec fn with_cursor(self, row: usize, col: usize) -> TerminalModel {
        TerminalModel { cursor_row: row, cursor_col: col, ..self }
    }

    pub open spec fn spec_clear_screen(self) -> TerminalModel {
        TerminalModel {
            main_buffer: blank_rows(1),
            cursor_row: 0,
            cursor_col: 0,
            render_buffer_dirty: true,
            ..self
        }
    }

    pub open spec fn spec_resize(self, new_rows: usize, new_cols: usize) -> TerminalModel {
        if self.rows == new_rows && self.cols == new_cols {
            self
        } else {
            let main = if self.main_buffer.len() == 0 {
                blank_rows(1)
            } else {
                self.main_buffer
            };
            let col_limit: usize = if new_cols == 0 { 0 } else { (new_cols - 1) as usize };
            TerminalModel {
                rows: new_rows,
                cols: new_cols,
                render_buffer_dirty: true,
                main_buffer: main,
                cursor_col: if self.cursor_col < col_limit { self.cursor_col } else { col_limit },
                cursor_row: if self.cursor_row < main.len() - 1 {
                    self.cursor_row
                } else {
                    (main.len() - 1) as usize
                },
                ..self
            }
        }
    }

    /// `put_char` is defined: the cursor row can be created, the column
    /// arithmetic does not overflow, and the cell to write exists (a
    /// zero-width character past the end of its row does not).
    pub open spec fn put_char_defined(self, ch: char) -> bool {
        let w = cell_width(ch);
        let main = pad_rows(self.main_buffer, self.cursor_row as nat + 1);
        &&& self.cursor_row < usize::MAX
        &&& self.cursor_col + w <= usize::MAX
        &&& (w > 0 || self.cursor_col < main[self.cursor_row as int].len())
    }

    /// Writes `ch` in the current colour at the cursor, growing the buffer and
    /// the row as needed; a double-width character leaves a continuation cell
    /// after it. The cursor advances by the character's width.
    pub open spec fn spec_put_char(self, ch: char) -> TerminalModel {
        let s = self.without_protection();
        let w = cell_width(ch);
        let col = s.cursor_col;
        let main = pad_rows(s.main_buffer, s.cursor_row as nat + 1);
        let row0 = main[s.cursor_row as int];
        let row1 = if col + w >= row0.len() { resize_row(row0, (col + w) as nat) } else { row0 };
        let row2 = row1.update(col as int, TerminalCell { ch, color: s.current_color });
        let row3 = if w == 2 && col + 1 < row2.len() {
            row2.update(col + 1, TerminalCell { ch: '\0', color: s.current_color })
        } else {
            row2
        };
        TerminalModel {
            main_buffer: main.update(s.cursor_row as int, row3),
            cursor_col: (col + w) as usize,
            render_buffer_dirty: true,
            ..s
        }
    }

    /// `newline` is defined: the next row index and the row count fit in a `usize`.
    pub open spec fn newline_defined(self) -> bool {
        self.cursor_row + 2 <= usize::MAX
    }

    /// Moves to the start of the next row, creating it if needed; the oldest
    /// rows beyond `MAX_HISTORY_LINES` are dropped and the cursor row follows
    /// the text up.
    pub open spec fn spec_newline(self) -> TerminalModel {
        let s = self.without_protection();
        let row = s.cursor_row + 1;
        let main = pad_rows(s.main_buffer, row as nat + 1);
        let k: int = if main.len() > MAX_HISTORY_LINES { main.len() - MAX_HISTORY_LINES } else { 0 };
        TerminalModel {
            main_buffer: main.subrange(k, main.len() as int),
            cursor_row: if row >= k { (row - k) as usize } else { 0 },
            cursor_col: 0,
            render_buffer_dirty: true,
            ..s
        }
    }

    pub open spec fn spec_carriage_return(self) -> TerminalModel {
        TerminalModel { cursor_col: 0, render_buffer_dirty: true, ..self }
    }

    pub open spec fn spec_backspace(self) -> TerminalModel {
        if self.cursor_col > 0 {
            let col = (self.cursor_col - 1) as usize;
            let main = if self.cursor_row < self.main_buffer.len()
                && col < self.main_buffer[self.cursor_row as int].len() {
                self.main_buffer.update(
                    self.cursor_row as int,
                    self.main_buffer[self.cursor_row as int].update(col as int, default_cell()),
                )
            } else {
                self.main_buffer
            };
            TerminalModel { cursor_col: col, main_buffer: main, render_buffer_dirty: true, ..self }
        } else {
            self.dirty()
        }
    }

    /// `move_cursor_to` is defined: the bound it clamps to exists.
    pub open spec fn move_cursor_defined(self) -> bool {
        if self.is_alt_screen {
            self.rows >= 1 && self.cols >= 1
        } else {
            self.main_buffer.len() >= 1
        }
    }

    /// The cursor clamped into the alternative screen, or into the buffer and
    /// the main buffer's width.
    pub open spec fn spec_move_cursor_to(self, row: usize, col: usize) -> TerminalModel {
        let (max_row, max_col) = if self.is_alt_screen {
            ((self.rows - 1) as usize, (self.cols - 1) as usize)
        } else {
            ((self.main_buffer.len() - 1) as usize, (MAX_MAIN_BUFFER_COLS - 1) as usize)
        };
        TerminalModel {
            cursor_row: if row < max_row { row } else { max_row },
            cursor_col: if col < max_col { col } else { max_col },
            render_buffer_dirty: true,
            ..self
        }
    }

    pub open spec fn spec_switch_to_alt_screen(self) -> TerminalModel {
        if !self.is_alt_screen {
            TerminalModel {
                main_buffer_backup: Some(self.main_buffer),
                saved_cursor_main: (self.cursor_row, self.cursor_col),
                main_buffer: blank_rows(self.rows as nat),
                is_alt_screen: true,
                cursor_row: 0,
                cursor_col: 0,
                render_buffer_dirty: true,
                ..self
            }
        } else {
            self
        }
    }

    pub open spec fn spec_switch_to_main_screen(self) -> TerminalModel {
        if self.is_alt_screen {
            TerminalModel {
                main_buffer: match self.main_buffer_backup {
                    Some(b) => b,
                    None => self.main_buffer,
                },
                main_buffer_backup: None,
                cursor_row: self.saved_cursor_main.0,
                cursor_col: self.saved_cursor_main.1,
                is_alt_screen: false,
                render_buffer_dirty: true,
                ..self
            }
        } else {
            self
        }
    }
}

/// The protection that a recent arrow key gives against a stray backspace
/// lasts 300 ms.
pub open spec fn spec_protection_active(pressed: bool, elapsed_millis: Option<u128>) -> bool {
    pressed && (elapsed_millis matches Some(ms) && ms < 300)
}

/// Decides the arrow-key protection from the time since the key was pressed.
pub fn protection_active(pressed: bool, elapsed_millis: Option<u128>) -> (r: bool)
    ensures
        r == spec_protection_active(pressed, elapsed_millis),
{
    if !pressed {
        return false;
    }
    match elapsed_millis {
        Some(ms) => ms < 300,
        None => false,
    }
}

/// A blank row of the main buffer's width.
pub(crate) fn new_main_row() -> (row: Vec<TerminalCell>)
    ensures
        row@ == blank_row(MAX_MAIN_BUFFER_COLS as nat),
{
    let row = vec![TerminalCell::default(); MAX_MAIN_BUFFER_COLS];
    assert(row@ =~= blank_row(MAX_MAIN_BUFFER_COLS as nat));
    row
}

/// A copy of a buffer, row by row.
fn clone_rows(rows: &VecDeque<Vec<TerminalCell>>) -> (r: VecDeque<Vec<TerminalCell>>)
    ensures
        rows_view(r@) == rows_view(rows@),
{
    let mut out: VecDeque<Vec<TerminalCell>> = VecDeque::new();
    let mut i: usize = 0;
    while i < rows.len()
        invariant
            i <= rows.len(),
            rows_view(out@) =~= rows_view(rows@).subrange(0, i as int),
        decreases rows.len() - i,
    {
        let row = clone_row(&rows[i]);
        let ghost prev = out@;
        out.push_back(row);
        i = i + 1;
        assert(rows_view(out@) =~= rows_view(prev).push(rows@[i - 1]@));
        assert(rows_view(rows@).subrange(0, i as int) =~= rows_view(rows@).subrange(0, i - 1).push(rows@[i - 1]@));
    }
    assert(rows_view(rows@).subrange(0, rows.len() as int) =~= rows_view(rows@));
    out
}

/// A copy of a row, cell by cell.
fn clone_row(row: &Vec<TerminalCell>) -> (r: Vec<TerminalCell>)
    ensures
        r@ == row@,
{
    let mut out: Vec<TerminalCell> = Vec::new();
    let mut i: usize = 0;
    while i < row.len()
        invariant
            i <= row.len(),
            out@ =~= row@.subrange(0, i as int),
        decreases row.len() - i,
    {
        out.push(row[i]);
        i = i + 1;
    }
    assert(out@ =~= row@);
    out
}

impl TerminalState {
    pub fn mark_render_dirty(&mut self)
        ensures
            final(self)@ == old(self)@.dirty(),
    {
        self.render_buffer_dirty = true;
    }

    pub fn clear_arrow_key_protection(&mut self)
        ensures
            final(self)@ == old(self)@.without_protection(),
    {
        self.arrow_key_pressed = false;
        self.arrow_key_time = None;
    }

    /// Records an arrow key press at the current time.
    pub fn set_arrow_key_protection(&mut self)
        ensures
            final(self)@ == old(self)@.with_protection(final(self).arrow_key_time),
            final(self).arrow_key_time is Some,
    {
        self.arrow_key_pressed = true;
        self.arrow_key_time = Some(instant_now());
    }

    /// Whether an arrow key was pressed less than 300 ms ago. The clock decides;
    /// without a recorded press the answer is always no.
    pub fn should_protect_from_arrow_key(&self) -> (r: bool)
        ensures
            r ==> self.arrow_key_pressed && self.arrow_key_time is Some,
    {
        let elapsed = match &self.arrow_key_time {
            Some(t) => {
                let d = instant_elapsed(t);
                Some(duration_as_millis(&d))
            },
            None => None,
        };
        protection_active(self.arrow_key_pressed, elapsed)
    }

    pub fn clear_screen(&mut self)
        ensures
            final(self)@ == old(self)@.spec_clear_screen(),
    {
        self.main_buffer.clear();
        self.main_buffer.push_back(new_main_row());
        self.cursor_row = 0;
        self.cursor_col = 0;
        self.mark_render_dirty();
        assert(self@.main_buffer =~= blank_rows(1));
    }

    pub fn resize(&mut self, new_rows: usize, new_cols: usize)
        ensures
            final(self)@ == old(self)@.spec_resize(new_rows, new_cols),
    {
        if self.rows == new_rows && self.cols == new_cols {
            return;
        }
        self.rows = new_rows;
        self.cols = new_cols;
        self.mark_render_dirty();
        let limit = new_cols.saturating_sub(1);
        self.cursor_col = if self.cursor_col < limit { self.cursor_col } else { limit };
        if self.main_buffer.len() == 0 {
            self.main_buffer.push_back(new_main_row());
            assert(self@.main_buffer =~= blank_rows(1));
        }
        let last = self.main_buffer.len() - 1;
        self.cursor_row = if self.cursor_row < last { self.cursor_row } else { last };
    }

    /// Adds blank rows until the cursor row exists.
    fn ensure_cursor_row(&mut self)
        requires
            old(self).cursor_row < usize::MAX,
        ensures
            final(self)@ == (TerminalModel {
                main_buffer: pad_rows(old(self)@.main_buffer, old(self).cursor_row as nat + 1),
                ..old(self)@
            }),
            final(self).cursor_row < final(self).main_buffer.len(),
    {
        let ghost start = rows_view(self.main_buffer@);
        while self.cursor_row >= self.main_buffer.len()
            invariant
                self.cursor_row == old(self).cursor_row,
                self.cursor_row < usize::MAX,
                self@ == (TerminalModel { main_buffer: self@.main_buffer, ..old(self)@ }),
                start == rows_view(old(self).main_buffer@),
                self.main_buffer.len() >= start.len(),
                self.main_buffer.len() == start.len() || self.main_buffer.len() <= self.cursor_row + 1,
                rows_view(self.main_buffer@) =~= start + blank_rows((self.main_buffer.len() - start.len()) as nat),
            decreases self.cursor_row + 1 - self.main_buffer.len(),
        {
            let ghost prev = rows_view(self.main_buffer@);
            self.main_buffer.push_back(new_main_row());
            assert(rows_view(self.main_buffer@) =~= prev.push(blank_row(MAX_MAIN_BUFFER_COLS as nat)));
            assert(rows_view(self.main_buffer@) =~= start + blank_rows((self.main_buffer.len() - start.len()) as nat));
        }
        proof {
            let n = self.cursor_row as nat + 1;
            if start.len() >= n {
                assert(self.main_buffer.len() == start.len());
                assert(rows_view(self.main_buffer@) =~= start);
            } else {
                assert(self.main_buffer.len() == n);
            }
            assert(rows_view(self.main_buffer@) =~= pad_rows(start, n));
        }
    }

    pub fn put_char(&mut self, ch: char)
        requires
            old(self)@.put_char_defined(ch),
        ensures
            final(self)@ == old(self)@.spec_put_char(ch),
    {
        self.clear_arrow_key_protection();
        let char_width = cell_width_of(ch);
        self.ensure_cursor_row();
        let r = self.cursor_row;
        let c = self.cursor_col;
        let ghost row0 = self.main_buffer@[r as int]@;
        let color = self.current_color;
        let row = deque_index_mut(&mut self.main_buffer, r);
        if c + char_width >= row.len() {
            row.resize(c + char_width, TerminalCell::default());
        }
        let ghost row1 = row@;
        assert(row1 =~= (if c + char_width >= row0.len() {
            resize_row(row0, (c + char_width) as nat)
        } else {
            row0
        }));
        row[c] = TerminalCell { ch, color };
        if char_width == 2 {
            if c + 1 < row.len() {
                row[c + 1] = TerminalCell { ch: '\0', color };
            }
        }
        self.cursor_col = c + char_width;
        self.mark_render_dirty();
        assert(self@.main_buffer =~~= old(self)@.spec_put_char(ch).main_buffer);
    }

    /// `put_char_defined`, tested.
    pub fn can_put_char(&self, ch: char) -> (r: bool)
        ensures
            r == self@.put_char_defined(ch),
    {
        if self.cursor_row == usize::MAX {
            return false;
        }
        let w = cell_width_of(ch);
        if self.cursor_col > usize::MAX - w {
            return false;
        }
        if w > 0 {
            return true;
        }
        let len = if self.cursor_row < self.main_buffer.len() {
            self.main_buffer[self.cursor_row].len()
        } else {
            MAX_MAIN_BUFFER_COLS
        };
        proof {
            let main = pad_rows(self@.main_buffer, self.cursor_row as nat + 1);
            if self.cursor_row >= self.main_buffer.len() {
                assert(main[self.cursor_row as int] == blank_row(MAX_MAIN_BUFFER_COLS as nat));
            } else {
                assert(main[self.cursor_row as int] == self.main_buffer@[self.cursor_row as int]@);
            }
        }
        self.cursor_col < len
    }

    /// Writes a printed character where writing it is defined; returns whether
    /// it was written. Otherwise the state is left as it was.
    pub fn print(&mut self, ch: char) -> (ok: bool)
        ensures
            ok == old(self)@.put_char_defined(ch),
            ok ==> final(self)@ == old(self)@.spec_put_char(ch),
            !ok ==> final(self)@ == old(self)@,
    {
        if self.can_put_char(ch) {
            self.put_char(ch);
            true
        } else {
            false
        }
    }

    pub fn newline(&mut self)
        requires
            old(self)@.newline_defined(),
        ensures
            final(self)@ == old(self)@.spec_newline(),
            final(self).main_buffer.len() <= MAX_HISTORY_LINES,
            final(self).cursor_row < final(self).main_buffer.len(),
    {
        self.clear_arrow_key_protection();
        self.cursor_col = 0;
        self.cursor_row = self.cursor_row + 1;
        self.ensure_cursor_row();
        let ghost padded = rows_view(self.main_buffer@);
        let ghost row = self.cursor_row;
        let ghost k: int = if padded.len() > MAX_HISTORY_LINES {
            padded.len() - MAX_HISTORY_LINES
        } else {
            0
        };
        while self.main_buffer.len() > MAX_HISTORY_LINES
            invariant
                self@ == (TerminalModel {
                    main_buffer: self@.main_buffer,
                    cursor_row: self.cursor_row,
                    ..old(self)@.without_protection().with_cursor((old(self).cursor_row + 1) as usize, 0)
                }),
                padded.len() >= self.main_buffer.len(),
                padded.len() > MAX_HISTORY_LINES ==> self.main_buffer.len() >= MAX_HISTORY_LINES,
                padded.len() <= MAX_HISTORY_LINES ==> self.main_buffer.len() == padded.len(),
                rows_view(self.main_buffer@) =~= padded.subrange(
                    padded.len() - self.main_buffer.len(),
                    padded.len() as int,
                ),
                row < padded.len(),
                self.cursor_row == (if row >= padded.len() - self.main_buffer.len() {
                    (row - (padded.len() - self.main_buffer.len())) as usize
                } else {
                    0usize
                }),
            decreases self.main_buffer.len(),
        {
            let ghost prev = rows_view(self.main_buffer@);
            self.main_buffer.pop_front();
            assert(rows_view(self.main_buffer@) =~= prev.subrange(1, prev.len() as int));
            if self.cursor_row > 0 {
                self.cursor_row = self.cursor_row - 1;
            }
        }
        self.mark_render_dirty();
        assert(self@.main_buffer =~= old(self)@.spec_newline().main_buffer);
    }

    pub fn carriage_return(&mut self)
        ensures
            final(self)@ == old(self)@.spec_carriage_return(),
    {
        self.cursor_col = 0;
        self.mark_render_dirty();
    }

    /// Moves the cursor one column left and blanks the cell it lands on.
    pub fn backspace(&mut self)
        ensures
            final(self)@ == old(self)@.spec_backspace(),
    {
        if self.cursor_col > 0 {
            self.cursor_col = self.cursor_col - 1;
            if self.cursor_row < self.main_buffer.len() {
                let r = self.cursor_row;
                let c = self.cursor_col;
                let row = deque_index_mut(&mut self.main_buffer, r);
                if c < row.len() {
                    row[c] = TerminalCell::default();
                }
            }
        }
        self.mark_render_dirty();
        assert(self@.main_buffer =~~= old(self)@.spec_backspace().main_buffer);
    }

    pub fn move_cursor_to(&mut self, row: usize, col: usize)
        requires
            old(self)@.move_cursor_defined(),
        ensures
            final(self)@ == old(self)@.spec_move_cursor_to(row, col),
    {
        if self.is_alt_screen {
            let max_row = self.rows - 1;
            let max_col = self.cols - 1;
            self.cursor_row = if row < max_row { row } else { max_row };
            self.cursor_col = if col < max_col { col } else { max_col };
        } else {
            let max_row = self.main_buffer.len() - 1;
            let max_col = MAX_MAIN_BUFFER_COLS - 1;
            self.cursor_row = if row < max_row { row } else { max_row };
            self.cursor_col = if col < max_col { col } else { max_col };
        }
        self.mark_render_dirty();
    }

    /// Saves the main buffer and cursor and shows a blank screen of `rows` rows.
    pub fn switch_to_alt_screen(&mut self)
        ensures
            final(self)@ == old(self)@.spec_switch_to_alt_screen(),
    {
        if !self.is_alt_screen {
            self.main_buffer_backup = Some(clone_rows(&self.main_buffer));
            self.saved_cursor_main = (self.cursor_row, self.cursor_col);
            let mut fresh: VecDeque<Vec<TerminalCell>> = VecDeque::new();
            let mut i: usize = 0;
            while i < self.rows
                invariant
                    i <= self.rows,
                    rows_view(fresh@) =~= blank_rows(i as nat),
                decreases self.rows - i,
            {
                let ghost prev = fresh@;
                fresh.push_back(new_main_row());
                i = i + 1;
                assert(rows_view(fresh@) =~= rows_view(prev).push(blank_row(MAX_MAIN_BUFFER_COLS as nat)));
            }
            self.main_buffer = fresh;
            self.is_alt_screen = true;
            self.cursor_row = 0;
            self.cursor_col = 0;
            self.mark_render_dirty();
        }
    }

    /// Brings back the saved main buffer and cursor.
    pub fn switch_to_main_screen(&mut self)
        ensures
            final(self)@ == old(self)@.spec_switch_to_main_screen(),
    {
        if self.is_alt_screen {
            if let Some(backup) = self.main_buffer_backup.take() {
                self.main_buffer = backup;
            }
            self.cursor_row = self.saved_cursor_main.0;
            self.cursor_col = self.saved_cursor_main.1;
            self.is_alt_screen = false;
            self.mark_render_dirty();
        }
    }
}

} // verus!
