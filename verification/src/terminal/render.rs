use vstd::prelude::*;
use std::collections::VecDeque;
use crate::terminal::state::{
    AnsiColor, MAX_HISTORY_LINES, MAX_MAIN_BUFFER_COLS, TerminalCell, TerminalModel, TerminalState,
    blank_row, blank_rows, default_cell, default_color, new_main_row, rows_view, text_end,
};
use crate::utils::width::{cell_width, cell_width_of};

verus! {

/// A render row of `cols` cells holding the first `te` cells of `src`.
pub open spec fn copy_prefix(src: Seq<TerminalCell>, te: int, cols: nat) -> Seq<TerminalCell> {
    Seq::new(cols, |j: int| if j < te { src[j] } else { default_cell() })
}

/// Fills one render row of width `cols` from the source row `src`, starting at
/// source column `sc` and render column `rc`, up to the text end `te`.
/// Continuation cells of the source are skipped; a character that would not
/// fit ends the row; a double-width character gets a continuation cell.
/// Returns the row, the source column where the next row starts, and the
/// render column at which the source column `target` was placed, if it was.
pub open spec fn fill_row(
    src: Seq<TerminalCell>,
    te: int,
    cols: int,
    target: int,
    sc: int,
    rc: int,
    row: Seq<TerminalCell>,
    hit: Option<int>,
) -> (Seq<TerminalCell>, int, Option<int>)
    decreases te - sc,
{
    if 0 <= sc && rc < cols && sc < te {
        if src[sc].ch == '\0' {
            fill_row(src, te, cols, target, sc + 1, rc, row, hit)
        } else {
            let w = cell_width(src[sc].ch) as int;
            if rc + w > cols {
                (row, sc, hit)
            } else {
                let row1 = row.update(rc, src[sc]);
                let row2 = if w == 2 && rc + 1 < cols {
                    row1.update(rc + 1, TerminalCell { ch: '\0', color: src[sc].color })
                } else {
                    row1
                };
                let hit2 = if sc == target { Some(rc) } else { hit };
                fill_row(src, te, cols, target, sc + 1, rc + w, row2, hit2)
            }
        }
    } else {
        (row, sc, hit)
    }
}

/// The render rows a long source row wraps into, from source column `sc` on,
/// with the position (row within these, column) where `target` was placed.
pub open spec fn wrap_rows(src: Seq<TerminalCell>, te: int, cols: int, target: int, sc: int) -> (
    Seq<Seq<TerminalCell>>,
    Option<(int, int)>,
)
    decreases te - sc,
{
    if 0 <= sc < te {
        let (row, sc2, hit) = fill_row(src, te, cols, target, sc, 0, blank_row(cols as nat), None);
        let first_hit: Option<(int, int)> = match hit {
            Some(c) => Some((0, c)),
            None => None,
        };
        if !(sc < sc2 <= te) {
            (seq![row], first_hit)
        } else {
            let (rest, rest_hit) = wrap_rows(src, te, cols, target, sc2);
            (
                seq![row] + rest,
                match rest_hit {
                    Some((i, c)) => Some((i + 1, c)),
                    None => first_hit,
                },
            )
        }
    } else {
        (Seq::empty(), None)
    }
}

impl TerminalModel {
    /// Source column of the cursor when row `i` is the cursor row, else none.
    pub open spec fn cursor_target(self, i: int) -> int {
        if i == self.cursor_row { self.cursor_col as int } else { -1 }
    }

    /// Render rows and render cursor after the first `k` rows of the main
    /// buffer have been laid out. A row whose text fits the width is copied up
    /// to its text end; a longer one is wrapped. The render cursor follows the
    /// cursor; past the end of a wrapped row it sits in the last column of the
    /// row's last render row.
    pub open spec fn render_prefix(self, k: int) -> (Seq<Seq<TerminalCell>>, usize, usize)
        decreases k,
    {
        if k <= 0 {
            (Seq::empty(), self.render_cursor_row, self.render_cursor_col)
        } else {
            let (acc, rcr, rcc) = self.render_prefix(k - 1);
            let i = k - 1;
            let src = self.main_buffer[i];
            let te = text_end(src) as int;
            let cols = self.cols;
            if te <= cols {
                let out = acc.push(copy_prefix(src, te, cols as nat));
                if i == self.cursor_row {
                    (
                        out,
                        (out.len() - 1) as usize,
                        if self.cursor_col < cols { self.cursor_col } else { cols },
                    )
                } else {
                    (out, rcr, rcc)
                }
            } else {
                let (rows, hit) = wrap_rows(src, te, cols as int, self.cursor_target(i), 0);
                let out = acc + rows;
                if i == self.cursor_row && self.cursor_col >= te {
                    (out, (out.len() - 1) as usize, if cols == 0 { 0 } else { (cols - 1) as usize })
                } else {
                    match hit {
                        Some((r, c)) => (out, (acc.len() + r) as usize, c as usize),
                        None => (out, rcr, rcc),
                    }
                }
            }
        }
    }

    /// Laying out stops: every row that needs wrapping has room for each of its
    /// characters in a render row, and the width leaves room for the column
    /// arithmetic of wrapping.
    pub open spec fn render_defined(self) -> bool {
        forall|i: int|
            #![trigger self.main_buffer[i]]
            0 <= i < self.main_buffer.len() && text_end(self.main_buffer[i]) > self.cols ==> {
                &&& self.cols >= 1
                &&& self.cols + 3 <= usize::MAX
                &&& forall|j: int|
                    #![trigger self.main_buffer[i][j]]
                    0 <= j < text_end(self.main_buffer[i]) && self.main_buffer[i][j].ch != '\0'
                        ==> cell_width(self.main_buffer[i][j].ch) <= self.cols
            }
    }

    /// The render buffer rebuilt from the whole main buffer.
    pub open spec fn spec_update_render_buffer(self) -> TerminalModel {
        let (render, rcr, rcc) = self.render_prefix(self.main_buffer.len() as int);
        TerminalModel {
            render_buffer: render,
            render_cursor_row: rcr,
            render_cursor_col: rcc,
            render_buffer_dirty: false,
            ..self
        }
    }

    pub open spec fn spec_update_render_buffer_if_dirty(self) -> TerminalModel {
        if self.render_buffer_dirty {
            self.spec_update_render_buffer()
        } else {
            self
        }
    }
}

proof fn lemma_text_end_bound(row: Seq<TerminalCell>)
    ensures
        text_end(row) <= row.len(),
        text_end(row) > 0 ==> row[text_end(row) - 1].ch != ' ' && row[text_end(row) - 1].ch != '\0',
    decreases row.len(),
{
    if row.len() > 0 && (row.last().ch == ' ' || row.last().ch == '\0') {
        lemma_text_end_bound(row.drop_last());
    }
}

/// Filling never moves back, and keeps the row's length.
proof fn lemma_fill_row_progress(
    src: Seq<TerminalCell>,
    te: int,
    cols: int,
    target: int,
    sc: int,
    rc: int,
    row: Seq<TerminalCell>,
    hit: Option<int>,
)
    requires
        0 <= rc,
        row.len() == cols,
        hit matches Some(c) ==> 0 <= c < cols,
    ensures
        fill_row(src, te, cols, target, sc, rc, row, hit).2 matches Some(c) ==> 0 <= c < cols,
        fill_row(src, te, cols, target, sc, rc, row, hit).1 >= sc,
        fill_row(src, te, cols, target, sc, rc, row, hit).0.len() == cols,
        sc <= te ==> fill_row(src, te, cols, target, sc, rc, row, hit).1 <= te,
    decreases te - sc,
{
    if 0 <= sc && rc < cols && sc < te {
        if src[sc].ch == '\0' {
            lemma_fill_row_progress(src, te, cols, target, sc + 1, rc, row, hit);
        } else {
            let w = cell_width(src[sc].ch) as int;
            if rc + w <= cols {
                let row1 = row.update(rc, src[sc]);
                let row2 = if w == 2 && rc + 1 < cols {
                    row1.update(rc + 1, TerminalCell { ch: '\0', color: src[sc].color })
                } else {
                    row1
                };
                let hit2 = if sc == target { Some(rc) } else { hit };
                lemma_fill_row_progress(src, te, cols, target, sc + 1, rc + w, row2, hit2);
            }
        }
    }
}

/// Text end of a row, found from its end.
pub(crate) fn row_text_end(row: &Vec<TerminalCell>) -> (r: usize)
    ensures
        r == text_end(row@),
{
    let mut i = row.len();
    assert(row@.subrange(0, i as int) =~= row@);
    while i > 0 && (row[i - 1].ch == ' ' || row[i - 1].ch == '\0')
        invariant
            i <= row.len(),
            text_end(row@) == text_end(row@.subrange(0, i as int)),
        decreases i,
    {
        assert(row@.subrange(0, i as int).drop_last() =~= row@.subrange(0, i - 1));
        i = i - 1;
    }
    proof {
        if i > 0 {
            assert(row@.subrange(0, i as int).last() == row@[i - 1]);
        }
    }
    assert(row@.subrange(0, row.len() as int) =~= row@);
    i
}

/// A render row holding the first `te` cells of `src`.
fn copy_render_row(src: &Vec<TerminalCell>, te: usize, cols: usize) -> (r: Vec<TerminalCell>)
    requires
        te <= cols,
        te <= src.len(),
    ensures
        r@ == copy_prefix(src@, te as int, cols as nat),
{
    let mut row = vec![TerminalCell::default(); cols];
    let mut j: usize = 0;
    while j < te
        invariant
            j <= te,
            te <= cols,
            te <= src.len(),
            row@.len() == cols,
            forall|k: int| 0 <= k < j ==> row@[k] == src@[k],
            forall|k: int| j <= k < cols ==> row@[k] == default_cell(),
        decreases te - j,
    {
        row[j] = src[j];
        j = j + 1;
    }
    assert(row@ =~= copy_prefix(src@, te as int, cols as nat));
    row
}

/// One wrapped render row, filled from source column `sc` on.
fn fill_render_row(
    src: &Vec<TerminalCell>,
    te: usize,
    cols: usize,
    is_cursor_row: bool,
    cursor_col: usize,
    sc: usize,
) -> (r: (Vec<TerminalCell>, usize, Option<usize>))
    requires
        te <= src.len(),
        sc <= te,
        cols + 3 <= usize::MAX,
    ensures
        ({
            let target = if is_cursor_row { cursor_col as int } else { -1 };
            let (row, sc2, hit) = fill_row(src@, te as int, cols as int, target, sc as int, 0, blank_row(cols as nat), None);
            &&& r.0@ == row
            &&& r.1 == sc2
            &&& r.2 == match hit { Some(c) => Some(c as usize), None => None::<usize> }
        }),
{
    let ghost target = if is_cursor_row { cursor_col as int } else { -1 };
    let mut row = vec![TerminalCell::default(); cols];
    assert(row@ =~= blank_row(cols as nat));
    let mut source_col = sc;
    let mut render_col: usize = 0;
    let mut hit: Option<usize> = None;
    let mut done = false;
    let ghost whole = fill_row(src@, te as int, cols as int, target, sc as int, 0, blank_row(cols as nat), None);
    while !done && render_col < cols && source_col < te
        invariant
            te <= src.len(),
            cols + 3 <= usize::MAX,
            render_col <= cols,
            row@.len() == cols,
            sc <= source_col <= te,
            whole == fill_row(src@, te as int, cols as int, target, sc as int, 0, blank_row(cols as nat), None),
            whole == fill_row(
                src@,
                te as int,
                cols as int,
                target,
                source_col as int,
                render_col as int,
                row@,
                match hit { Some(c) => Some(c as int), None => None::<int> },
            ),
            done ==> whole == (row@, source_col as int, match hit { Some(c) => Some(c as int), None => None::<int> }),
            target == if is_cursor_row { cursor_col as int } else { -1 },
        decreases te - source_col + (if done { 0int } else { 1int }),
    {
        if src[source_col].ch == '\0' {
            source_col = source_col + 1;
        } else {
            let char_width = cell_width_of(src[source_col].ch);
            if render_col + char_width > cols {
                done = true;
            } else {
                let cell = src[source_col];
                row[render_col] = cell;
                if char_width == 2 && render_col + 1 < cols {
                    row[render_col + 1] = TerminalCell { ch: '\0', color: cell.color };
                }
                if is_cursor_row && source_col == cursor_col {
                    hit = Some(render_col);
                }
                render_col = render_col + char_width;
                source_col = source_col + 1;
            }
        }
    }
    (row, source_col, hit)
}

/// From the start of a render row, filling consumes at least one source
/// column when every character fits the width.
proof fn lemma_fill_row_advances(
    src: Seq<TerminalCell>,
    te: int,
    cols: int,
    target: int,
    sc: int,
    row: Seq<TerminalCell>,
)
    requires
        0 <= sc < te,
        cols >= 1,
        row.len() == cols,
        forall|j: int| sc <= j < te && src[j].ch != '\0' ==> cell_width(src[j].ch) <= cols,
    ensures
        sc < fill_row(src, te, cols, target, sc, 0, row, None).1 <= te,
{
    if src[sc].ch == '\0' {
        lemma_fill_row_progress(src, te, cols, target, sc + 1, 0, row, None);
    } else {
        let w = cell_width(src[sc].ch) as int;
        let row1 = row.update(0, src[sc]);
        let row2 = if w == 2 && 1 < cols {
            row1.update(1, TerminalCell { ch: '\0', color: src[sc].color })
        } else {
            row1
        };
        let hit2 = if sc == target { Some(0int) } else { None };
        lemma_fill_row_progress(src, te, cols, target, sc + 1, w, row2, hit2);
    }
}

/// Where `target` lands overall, given where it landed in the rows made so far
/// (`done` rows, landing `so_far`) and where it lands in the rest.
pub open spec fn combine_hit(done: int, so_far: Option<(int, int)>, rest: Option<(int, int)>) -> Option<(int, int)> {
    match rest {
        Some((i, c)) => Some((done + i, c)),
        None => so_far,
    }
}

/// The render rows of a source row whose text is longer than the width.
fn wrap_render_rows(
    src: &Vec<TerminalCell>,
    te: usize,
    cols: usize,
    is_cursor_row: bool,
    cursor_col: usize,
) -> (r: (Vec<Vec<TerminalCell>>, Option<(usize, usize)>))
    requires
        te <= src.len(),
        te >= 1,
        cols >= 1,
        cols + 3 <= usize::MAX,
        forall|j: int| 0 <= j < te && src@[j].ch != '\0' ==> cell_width(src@[j].ch) <= cols,
    ensures
        ({
            let target = if is_cursor_row { cursor_col as int } else { -1 };
            let (rows, hit) = wrap_rows(src@, te as int, cols as int, target, 0);
            &&& rows_view(r.0@) == rows
            &&& r.1 == match hit { Some((i, c)) => Some((i as usize, c as usize)), None => None::<(usize, usize)> }
            &&& forall|i: int| 0 <= i < rows.len() ==> #[trigger] rows[i].len() == cols
            &&& rows.len() >= 1
            &&& r.1 matches Some((i, c)) ==> i < r.0.len()
            &&& hit matches Some((i, c)) ==> 0 <= i < rows.len() && 0 <= c
        }),
{
    let ghost target = if is_cursor_row { cursor_col as int } else { -1 };
    let ghost all = wrap_rows(src@, te as int, cols as int, target, 0);
    let mut out: Vec<Vec<TerminalCell>> = Vec::new();
    let mut hit: Option<(usize, usize)> = None;
    let mut source_col: usize = 0;
    while source_col < te
        invariant
            te <= src.len(),
            cols >= 1,
            cols + 3 <= usize::MAX,
            forall|j: int| 0 <= j < te && src@[j].ch != '\0' ==> cell_width(src@[j].ch) <= cols,
            target == if is_cursor_row { cursor_col as int } else { -1 },
            all == wrap_rows(src@, te as int, cols as int, target, 0),
            source_col <= te,
            rows_view(out@) + wrap_rows(src@, te as int, cols as int, target, source_col as int).0 == all.0,
            all.1 == combine_hit(
                out.len() as int,
                match hit { Some((i, c)) => Some((i as int, c as int)), None => None::<(int, int)> },
                wrap_rows(src@, te as int, cols as int, target, source_col as int).1,
            ),
            forall|i: int| 0 <= i < out.len() ==> #[trigger] out@[i]@.len() == cols,
            hit matches Some((i, c)) ==> i < out.len(),
        decreases te - source_col,
    {
        let ghost sc = source_col as int;
        proof {
            lemma_fill_row_advances(src@, te as int, cols as int, target, sc, blank_row(cols as nat));
            lemma_fill_row_progress(src@, te as int, cols as int, target, sc, 0, blank_row(cols as nat), None);
        }
        let (row, next_col, row_hit) = fill_render_row(src, te, cols, is_cursor_row, cursor_col, source_col);
        let ghost prev = rows_view(out@);
        let ghost prev_len = out.len() as int;
        if let Some(c) = row_hit {
            hit = Some((out.len(), c));
        }
        out.push(row);
        source_col = next_col;
        proof {
            let f = fill_row(src@, te as int, cols as int, target, sc, 0, blank_row(cols as nat), None);
            let rn = wrap_rows(src@, te as int, cols as int, target, source_col as int);
            assert(f.1 == source_col as int);
            assert(wrap_rows(src@, te as int, cols as int, target, sc).1 == match rn.1 {
                Some((i, c)) => Some((i + 1, c)),
                None => match f.2 { Some(c) => Some((0int, c)), None => None::<(int, int)> },
            });
            assert(rows_view(out@) =~= prev.push(out@[prev_len]@));
            let rest_now = wrap_rows(src@, te as int, cols as int, target, sc);
            let rest_next = wrap_rows(src@, te as int, cols as int, target, source_col as int);
            assert(rest_now.0 =~= seq![out@[prev_len]@] + rest_next.0);
            assert(rows_view(out@) + rest_next.0 =~= prev + rest_now.0);
        }
    }
    proof {
        assert(rows_view(out@) =~= all.0);
        assert(all.0.len() >= 1);
    }
    (out, hit)
}

impl TerminalState {
    /// Length of `row` without its trailing blank and continuation cells.
    fn find_row_text_end(&self, row: &Vec<TerminalCell>) -> (r: usize)
        ensures
            r == text_end(row@),
    {
        row_text_end(row)
    }

    /// Rebuilds the render buffer from the whole main buffer and places the
    /// render cursor.
    pub fn update_render_buffer(&mut self)
        requires
            old(self)@.render_defined(),
        ensures
            final(self)@ == old(self)@.spec_update_render_buffer(),
    {
        self.render_buffer.clear();
        assert(rows_view(self.render_buffer@) =~= Seq::<Seq<TerminalCell>>::empty());
        let mut idx: usize = 0;
        while idx < self.main_buffer.len()
            invariant
                idx <= self.main_buffer.len(),
                old(self)@.render_defined(),
                ({
                    let (acc, rcr, rcc) = old(self)@.render_prefix(idx as int);
                    self@ == (TerminalModel {
                        render_buffer: acc,
                        render_cursor_row: rcr,
                        render_cursor_col: rcc,
                        ..old(self)@
                    })
                }),
            decreases self.main_buffer.len() - idx,
        {
            let ghost src = old(self)@.main_buffer[idx as int];
            assert(self.main_buffer@[idx as int]@ == src);
            proof {
                lemma_text_end_bound(src);
            }
            let te = self.find_row_text_end(&self.main_buffer[idx]);
            let cols = self.cols;
            let is_cursor_row = idx == self.cursor_row;
            let ghost acc = rows_view(self.render_buffer@);
            if te <= cols {
                let row = copy_render_row(&self.main_buffer[idx], te, cols);
                self.render_buffer.push(row);
                if is_cursor_row {
                    self.render_cursor_row = self.render_buffer.len() - 1;
                    self.render_cursor_col = if self.cursor_col < cols { self.cursor_col } else { cols };
                }
                assert(rows_view(self.render_buffer@) =~= acc.push(copy_prefix(src, te as int, cols as nat)));
            } else {
                let start = self.render_buffer.len();
                let cursor_col = self.cursor_col;
                let (mut rows, hit) = wrap_render_rows(&self.main_buffer[idx], te, cols, is_cursor_row, cursor_col);
                let ghost added = rows_view(rows@);
                let ghost added_len = rows.len();
                self.render_buffer.append(&mut rows);
                assert(self.render_buffer.len() == start + added_len);
                assert(rows_view(self.render_buffer@) =~= acc + added);
                match hit {
                    Some((r, c)) => {
                        self.render_cursor_row = start + r;
                        self.render_cursor_col = c;
                    },
                    None => {},
                }
                if is_cursor_row && cursor_col >= te {
                    let last = self.render_buffer.len() - 1;
                    self.render_cursor_row = if last > start { last } else { start };
                    self.render_cursor_col = cols.saturating_sub(1);
                }
            }
            proof {
                let (acc0, rcr0, rcc0) = old(self)@.render_prefix(idx as int);
                let (acc1, rcr1, rcc1) = old(self)@.render_prefix(idx + 1);
                assert(acc0 == acc);
                assert(rows_view(self.render_buffer@) == acc1);
                assert(self.render_cursor_row == rcr1);
                assert(self.render_cursor_col == rcc1);
            }
            idx = idx + 1;
        }
        self.render_buffer_dirty = false;
    }

    /// Rebuilds the render buffer when the screen changed since the last build.
    pub fn update_render_buffer_if_dirty(&mut self)
        requires
            old(self).render_buffer_dirty ==> old(self)@.render_defined(),
        ensures
            final(self)@ == old(self)@.spec_update_render_buffer_if_dirty(),
    {
        if self.render_buffer_dirty {
            self.update_render_buffer();
            self.render_buffer_dirty = false;
        }
    }
}

/// A row of blanks has no text.
pub proof fn lemma_blank_text_end(n: nat)
    ensures
        text_end(blank_row(n)) == 0,
    decreases n,
{
    if n > 0 {
        assert(blank_row(n).drop_last() =~= blank_row((n - 1) as nat));
        lemma_blank_text_end((n - 1) as nat);
    }
}

/// A fill started without a hit reports one exactly when it placed `target`:
/// never for a negative target, and always for a non-continuation target
/// column that it passed.
proof fn lemma_fill_row_hit(
    src: Seq<TerminalCell>,
    te: int,
    cols: int,
    target: int,
    sc: int,
    rc: int,
    row: Seq<TerminalCell>,
    hit: Option<int>,
)
    requires
        0 <= sc,
    ensures
        hit is Some ==> fill_row(src, te, cols, target, sc, rc, row, hit).2 is Some,
        (target < 0 && hit is None) ==> fill_row(src, te, cols, target, sc, rc, row, hit).2 is None,
        (sc <= target < fill_row(src, te, cols, target, sc, rc, row, hit).1 && src[target].ch != '\0')
            ==> fill_row(src, te, cols, target, sc, rc, row, hit).2 is Some,
    decreases te - sc,
{
    if 0 <= sc && rc < cols && sc < te {
        if src[sc].ch == '\0' {
            lemma_fill_row_hit(src, te, cols, target, sc + 1, rc, row, hit);
        } else {
            let w = cell_width(src[sc].ch) as int;
            if rc + w <= cols {
                let row1 = row.update(rc, src[sc]);
                let row2 = if w == 2 && rc + 1 < cols {
                    row1.update(rc + 1, TerminalCell { ch: '\0', color: src[sc].color })
                } else {
                    row1
                };
                let hit2 = if sc == target { Some(rc) } else { hit };
                lemma_fill_row_hit(src, te, cols, target, sc + 1, rc + w, row2, hit2);
            }
        }
    }
}

/// Shape of the wrapped rows: each is `cols` wide, there is at least one,
/// where `target` lands is one of them, a negative target lands nowhere, and
/// a target column holding a character always lands.
proof fn lemma_wrap_rows_shape(src: Seq<TerminalCell>, te: int, cols: int, target: int, sc: int)
    requires
        0 <= sc,
        cols >= 1,
        forall|j: int| 0 <= j < te && src[j].ch != '\0' ==> cell_width(src[j].ch) <= cols,
    ensures
        ({
            let (rows, hit) = wrap_rows(src, te, cols, target, sc);
            &&& forall|i: int| 0 <= i < rows.len() ==> #[trigger] rows[i].len() == cols
            &&& sc < te ==> rows.len() >= 1
            &&& hit matches Some((i, c)) ==> 0 <= i < rows.len()
            &&& target < 0 ==> hit is None
            &&& (sc <= target < te && src[target].ch != '\0') ==> hit is Some
        }),
    decreases te - sc,
{
    if sc < te {
        let b = blank_row(cols as nat);
        lemma_fill_row_progress(src, te, cols, target, sc, 0, b, None);
        lemma_fill_row_advances(src, te, cols, target, sc, b);
        lemma_fill_row_hit(src, te, cols, target, sc, 0, b, None);
        let (row, sc2, hit) = fill_row(src, te, cols, target, sc, 0, b, None);
        lemma_wrap_rows_shape(src, te, cols, target, sc2);
        let (rest, rest_hit) = wrap_rows(src, te, cols, target, sc2);
        assert((seq![row] + rest).len() == rest.len() + 1);
        assert forall|i: int| 0 <= i < (seq![row] + rest).len() implies #[trigger] (seq![row] + rest)[i].len() == cols by {
            if i > 0 {
                assert((seq![row] + rest)[i] == rest[i - 1]);
            }
        }
    }
}

/// The cells of `s` other than continuation cells, in order.
pub open spec fn visible_cells(s: Seq<TerminalCell>) -> Seq<TerminalCell>
    decreases s.len(),
{
    if s.len() == 0 {
        Seq::empty()
    } else if s.last().ch == '\0' {
        visible_cells(s.drop_last())
    } else {
        visible_cells(s.drop_last()).push(s.last())
    }
}

/// Each character of `src` from column `from` up to `to` (continuation cells
/// aside) takes one or two columns.
pub open spec fn widths_one_or_two(src: Seq<TerminalCell>, from: int, to: int) -> bool {
    forall|j: int| from <= j < to && src[j].ch != '\0' ==> 1 <= #[trigger] cell_width(src[j].ch) <= 2
}

/// Each character of `src` from column `from` up to `to` (continuation cells
/// aside) takes at least one column.
pub open spec fn widths_positive(src: Seq<TerminalCell>, from: int, to: int) -> bool {
    forall|j: int| from <= j < to && src[j].ch != '\0' ==> 1 <= #[trigger] cell_width(src[j].ch)
}

/// What a run of wrapped rows shows: each row up to the column where its
/// filling stopped (`used`), continuation cells aside, one row after another.
pub open spec fn shown_cells(rows: Seq<Seq<TerminalCell>>, used: Seq<int>) -> Seq<TerminalCell>
    decreases rows.len(),
{
    if rows.len() == 0 {
        Seq::empty()
    } else {
        visible_cells(rows[0].subrange(0, used[0])) + shown_cells(rows.drop_first(), used.drop_first())
    }
}

proof fn lemma_visible_cells_add(a: Seq<TerminalCell>, b: Seq<TerminalCell>)
    ensures
        visible_cells(a + b) == visible_cells(a) + visible_cells(b),
    decreases b.len(),
{
    if b.len() == 0 {
        assert(a + b =~= a);
        assert(visible_cells(a) + visible_cells(b) =~= visible_cells(a));
    } else {
        assert((a + b).drop_last() =~= a + b.drop_last());
        assert((a + b).last() == b.last());
        lemma_visible_cells_add(a, b.drop_last());
        if b.last().ch == '\0' {
        } else {
            assert(visible_cells(a) + visible_cells(b.drop_last()).push(b.last())
                =~= (visible_cells(a) + visible_cells(b.drop_last())).push(b.last()));
        }
    }
}

proof fn lemma_visible_cells_single(x: TerminalCell)
    ensures
        visible_cells(seq![x]) == (if x.ch == '\0' { Seq::<TerminalCell>::empty() } else { seq![x] }),
{
    assert(seq![x].drop_last() =~= Seq::<TerminalCell>::empty());
    assert(seq![x].last() == x);
    assert(visible_cells(Seq::<TerminalCell>::empty()) == Seq::<TerminalCell>::empty());
    assert(Seq::<TerminalCell>::empty().push(x) =~= seq![x]);
}

/// Render column at which filling a row stops.
spec fn fill_col(src: Seq<TerminalCell>, te: int, cols: int, sc: int, rc: int) -> int
    decreases te - sc,
{
    if 0 <= sc && rc < cols && sc < te {
        if src[sc].ch == '\0' {
            fill_col(src, te, cols, sc + 1, rc)
        } else {
            let w = cell_width(src[sc].ch) as int;
            if rc + w > cols {
                rc
            } else {
                fill_col(src, te, cols, sc + 1, rc + w)
            }
        }
    } else {
        rc
    }
}

/// Filling a row writes only between the start column and the column where it
/// stops, and what it writes there is the source's characters it consumed.
proof fn lemma_fill_row_content(
    src: Seq<TerminalCell>,
    te: int,
    cols: int,
    target: int,
    sc: int,
    rc: int,
    row: Seq<TerminalCell>,
    hit: Option<int>,
)
    requires
        0 <= sc <= te <= src.len(),
        0 <= rc <= cols,
        row.len() == cols,
        widths_one_or_two(src, sc, te),
    ensures
        ({
            let (out, sc2, _h) = fill_row(src, te, cols, target, sc, rc, row, hit);
            let e = fill_col(src, te, cols, sc, rc);
            &&& rc <= e <= cols
            &&& sc <= sc2 <= te
            &&& out.len() == cols
            &&& out.subrange(0, rc) == row.subrange(0, rc)
            &&& out.subrange(e, cols) == row.subrange(e, cols)
            &&& visible_cells(out.subrange(rc, e)) == visible_cells(src.subrange(sc, sc2))
        }),
    decreases te - sc,
{
    let (out, sc2, _h) = fill_row(src, te, cols, target, sc, rc, row, hit);
    let e = fill_col(src, te, cols, sc, rc);
    if 0 <= sc && rc < cols && sc < te {
        if src[sc].ch == '\0' {
            lemma_fill_row_content(src, te, cols, target, sc + 1, rc, row, hit);
            assert(src.subrange(sc, sc2) =~= seq![src[sc]] + src.subrange(sc + 1, sc2));
            lemma_visible_cells_add(seq![src[sc]], src.subrange(sc + 1, sc2));
            lemma_visible_cells_single(src[sc]);
            assert(visible_cells(src.subrange(sc, sc2)) =~= visible_cells(src.subrange(sc + 1, sc2)));
        } else {
            let w = cell_width(src[sc].ch) as int;
            if rc + w <= cols {
                let row1 = row.update(rc, src[sc]);
                let row2 = if w == 2 && rc + 1 < cols {
                    row1.update(rc + 1, TerminalCell { ch: '\0', color: src[sc].color })
                } else {
                    row1
                };
                let hit2 = if sc == target { Some(rc) } else { hit };
                lemma_fill_row_content(src, te, cols, target, sc + 1, rc + w, row2, hit2);
                assert(out.subrange(rc, e) =~= out.subrange(rc, rc + w) + out.subrange(rc + w, e));
                lemma_visible_cells_add(out.subrange(rc, rc + w), out.subrange(rc + w, e));
                assert forall|j: int| 0 <= j < rc + w implies out[j] == row2[j] by {
                    assert(out.subrange(0, rc + w)[j] == row2.subrange(0, rc + w)[j]);
                }
                let head = out.subrange(rc, rc + w);
                lemma_visible_cells_single(src[sc]);
                if w == 1 {
                    assert(head =~= seq![src[sc]]);
                } else {
                    assert(head =~= seq![src[sc], TerminalCell { ch: '\0', color: src[sc].color }]);
                    assert(head.drop_last() =~= seq![src[sc]]);
                    assert(head.last().ch == '\0');
                }
                assert(visible_cells(head) =~= seq![src[sc]]);
                assert(src.subrange(sc, sc2) =~= seq![src[sc]] + src.subrange(sc + 1, sc2));
                lemma_visible_cells_add(seq![src[sc]], src.subrange(sc + 1, sc2));
                assert(out.subrange(0, rc) =~= row.subrange(0, rc)) by {
                    assert forall|j: int| 0 <= j < rc implies out.subrange(0, rc)[j] == row.subrange(0, rc)[j] by {
                        assert(out[j] == row2[j]);
                    }
                }
                assert(out.subrange(e, cols) =~= row.subrange(e, cols)) by {
                    assert forall|j: int| 0 <= j < cols - e implies out.subrange(e, cols)[j] == row.subrange(e, cols)[j] by {
                        assert(out.subrange(e, cols)[j] == row2.subrange(e, cols)[j]);
                    }
                }
            } else {
                assert(src.subrange(sc, sc) =~= Seq::<TerminalCell>::empty());
                assert(out.subrange(rc, rc) =~= Seq::<TerminalCell>::empty());
            }
        }
    } else {
        assert(src.subrange(sc, sc) =~= Seq::<TerminalCell>::empty());
        assert(out.subrange(rc, rc) =~= Seq::<TerminalCell>::empty());
    }
}

/// Columns each wrapped row is filled up to.
spec fn wrap_used(src: Seq<TerminalCell>, te: int, cols: int, target: int, sc: int) -> Seq<int>
    decreases te - sc,
{
    if 0 <= sc < te {
        let (row, sc2, hit) = fill_row(src, te, cols, target, sc, 0, blank_row(cols as nat), None);
        let e = fill_col(src, te, cols, sc, 0);
        if !(sc < sc2 <= te) {
            seq![e]
        } else {
            seq![e] + wrap_used(src, te, cols, target, sc2)
        }
    } else {
        Seq::empty()
    }
}

proof fn lemma_wrap_rows_content(src: Seq<TerminalCell>, te: int, cols: int, target: int, sc: int)
    requires
        0 <= sc <= te <= src.len(),
        cols >= 1,
        widths_one_or_two(src, sc, te),
        forall|j: int| sc <= j < te && src[j].ch != '\0' ==> cell_width(src[j].ch) <= cols,
    ensures
        ({
            let rows = wrap_rows(src, te, cols, target, sc).0;
            let used = wrap_used(src, te, cols, target, sc);
            &&& used.len() == rows.len()
            &&& forall|i: int| 0 <= i < rows.len() ==> 0 <= #[trigger] used[i] <= cols
                && rows[i].subrange(used[i], cols) == blank_row((cols - used[i]) as nat)
            &&& shown_cells(rows, used) == visible_cells(src.subrange(sc, te))
        }),
    decreases te - sc,
{
    let rows = wrap_rows(src, te, cols, target, sc).0;
    let used = wrap_used(src, te, cols, target, sc);
    if sc < te {
        let b = blank_row(cols as nat);
        lemma_fill_row_advances(src, te, cols, target, sc, b);
        lemma_fill_row_content(src, te, cols, target, sc, 0, b, None);
        let (row, sc2, hit) = fill_row(src, te, cols, target, sc, 0, b, None);
        let e = fill_col(src, te, cols, sc, 0);
        lemma_wrap_rows_content(src, te, cols, target, sc2);
        let rest = wrap_rows(src, te, cols, target, sc2).0;
        let used_rest = wrap_used(src, te, cols, target, sc2);
        assert(rows == seq![row] + rest);
        assert(used == seq![e] + used_rest);
        assert(rows.drop_first() =~= rest);
        assert(used.drop_first() =~= used_rest);
        assert(rows[0] == row);
        assert(used[0] == e);
        assert(row.subrange(e, cols) =~= blank_row((cols - e) as nat)) by {
            assert(b.subrange(e, cols) =~= blank_row((cols - e) as nat));
        }
        assert forall|i: int| 0 <= i < rows.len() implies 0 <= #[trigger] used[i] <= cols
            && rows[i].subrange(used[i], cols) == blank_row((cols - used[i]) as nat) by {
            if i > 0 {
                assert(rows[i] == rest[i - 1]);
                assert(used[i] == used_rest[i - 1]);
            }
        }
        assert(src.subrange(sc, te) =~= src.subrange(sc, sc2) + src.subrange(sc2, te));
        lemma_visible_cells_add(src.subrange(sc, sc2), src.subrange(sc2, te));
        assert(row.subrange(0, e) =~= row.subrange(0, e));
    } else {
        assert(src.subrange(sc, te) =~= Seq::<TerminalCell>::empty());
        assert(visible_cells(Seq::<TerminalCell>::empty()) == Seq::<TerminalCell>::empty());
    }
}

/// Wrapping a line keeps its characters in order: reading the wrapped rows one
/// after another, each up to the column where its filling stopped (the rest of
/// each row being blank), gives the line's cells up to its text end,
/// continuation cells aside. This holds for a line whose characters each take
/// one or two columns and fit the width.
pub proof fn lemma_wrap_keeps_characters(src: Seq<TerminalCell>, te: int, cols: int, target: int)
    requires
        0 <= te <= src.len(),
        cols >= 1,
        widths_one_or_two(src, 0, te),
        forall|j: int| 0 <= j < te && src[j].ch != '\0' ==> cell_width(src[j].ch) <= cols,
    ensures
        ({
            let rows = wrap_rows(src, te, cols, target, 0).0;
            exists|used: Seq<int>| {
                &&& used.len() == rows.len()
                &&& forall|i: int| 0 <= i < rows.len() ==> 0 <= #[trigger] used[i] <= cols
                    && rows[i].subrange(used[i], cols) == blank_row((cols - used[i]) as nat)
                &&& #[trigger] shown_cells(rows, used) == visible_cells(src.subrange(0, te))
            }
        }),
{
    lemma_wrap_rows_content(src, te, cols, target, 0);
    let rows = wrap_rows(src, te, cols, target, 0).0;
    let used = wrap_used(src, te, cols, target, 0);
    assert(shown_cells(rows, used) == visible_cells(src.subrange(0, te)));
}

/// Where a fill reports `target` placed, the row holds the target's cell.
proof fn lemma_fill_row_hit_cell(
    src: Seq<TerminalCell>,
    te: int,
    cols: int,
    target: int,
    sc: int,
    rc: int,
    row: Seq<TerminalCell>,
    hit: Option<int>,
)
    requires
        0 <= sc,
        0 <= rc,
        row.len() == cols,
        widths_positive(src, sc, te),
        hit matches Some(c) ==> 0 <= c < rc && c < cols && row[c] == src[target],
    ensures
        fill_row(src, te, cols, target, sc, rc, row, hit).2 matches Some(c) ==> 0 <= c < cols
            && fill_row(src, te, cols, target, sc, rc, row, hit).0[c] == src[target],
    decreases te - sc,
{
    if 0 <= sc && rc < cols && sc < te {
        if src[sc].ch == '\0' {
            lemma_fill_row_hit_cell(src, te, cols, target, sc + 1, rc, row, hit);
        } else {
            let w = cell_width(src[sc].ch) as int;
            if rc + w <= cols {
                let row1 = row.update(rc, src[sc]);
                let row2 = if w == 2 && rc + 1 < cols {
                    row1.update(rc + 1, TerminalCell { ch: '\0', color: src[sc].color })
                } else {
                    row1
                };
                let hit2 = if sc == target { Some(rc) } else { hit };
                lemma_fill_row_hit_cell(src, te, cols, target, sc + 1, rc + w, row2, hit2);
            }
        }
    }
}

/// Where wrapping reports `target` placed, that wrapped row holds the target's cell.
proof fn lemma_wrap_rows_hit_cell(src: Seq<TerminalCell>, te: int, cols: int, target: int, sc: int)
    requires
        0 <= sc,
        cols >= 1,
        widths_positive(src, sc, te),
        forall|j: int| sc <= j < te && src[j].ch != '\0' ==> cell_width(src[j].ch) <= cols,
    ensures
        ({
            let (rows, hit) = wrap_rows(src, te, cols, target, sc);
            hit matches Some((i, c)) ==> 0 <= i < rows.len() && 0 <= c < cols && rows[i][c] == src[target]
        }),
    decreases te - sc,
{
    if sc < te {
        let b = blank_row(cols as nat);
        lemma_fill_row_advances(src, te, cols, target, sc, b);
        lemma_fill_row_hit_cell(src, te, cols, target, sc, 0, b, None);
        let (row, sc2, hit) = fill_row(src, te, cols, target, sc, 0, b, None);
        lemma_wrap_rows_hit_cell(src, te, cols, target, sc2);
        let (rest, rest_hit) = wrap_rows(src, te, cols, target, sc2);
        let rows = seq![row] + rest;
        assert(rows[0] == row);
        assert forall|i: int| 0 < i < rows.len() implies rows[i] == rest[i - 1] by {}
    }
}

impl TerminalModel {
    /// Number of render rows, their width, and the render cursor after the
    /// first `k` rows have been laid out.
    proof fn lemma_render_prefix_shape(self, k: int)
        requires
            self.render_defined(),
            0 <= k <= self.main_buffer.len(),
        ensures
            ({
                let (out, rcr, rcc) = self.render_prefix(k);
                &&& out.len() >= k
                &&& forall|i: int| 0 <= i < out.len() ==> #[trigger] out[i].len() == self.cols
                &&& (k <= self.cursor_row ==> rcr == self.render_cursor_row)
                &&& (self.cursor_row < k && self.cursor_row < self.main_buffer.len()
                    && self.cursor_reachable()) ==> rcr < out.len()
            }),
        decreases k,
    {
        if k > 0 {
            self.lemma_render_prefix_shape(k - 1);
            let (acc, rcr0, rcc0) = self.render_prefix(k - 1);
            let i = k - 1;
            let src = self.main_buffer[i];
            let te = text_end(src) as int;
            let (out, rcr, rcc) = self.render_prefix(k);
            if te <= self.cols {
                assert(out == acc.push(copy_prefix(src, te, self.cols as nat)));
                assert forall|j: int| 0 <= j < out.len() implies #[trigger] out[j].len() == self.cols by {
                    if j < acc.len() {
                        assert(out[j] == acc[j]);
                    }
                }
            } else {
                lemma_wrap_rows_shape(src, te, self.cols as int, self.cursor_target(i), 0);
                let (rows, hit) = wrap_rows(src, te, self.cols as int, self.cursor_target(i), 0);
                assert(out == acc + rows);
                assert forall|j: int| 0 <= j < out.len() implies #[trigger] out[j].len() == self.cols by {
                    if j < acc.len() {
                        assert(out[j] == acc[j]);
                    } else {
                        assert(out[j] == rows[j - acc.len()]);
                    }
                }
            }
        }
    }

    /// Render rows and render cursor once the cursor row has been laid out:
    /// the render cursor is on a render cell holding the cursor's cell.
    proof fn lemma_render_prefix_cursor_cell(self, k: int)
        requires
            self.render_defined(),
            self.cursor_row < k <= self.main_buffer.len(),
            self.render_prefix(k).0.len() <= usize::MAX,
            self.cursor_col < text_end(self.main_buffer[self.cursor_row as int]),
            self.main_buffer[self.cursor_row as int][self.cursor_col as int].ch != '\0',
            widths_positive(
                self.main_buffer[self.cursor_row as int],
                0,
                text_end(self.main_buffer[self.cursor_row as int]) as int,
            ),
        ensures
            ({
                let (out, rcr, rcc) = self.render_prefix(k);
                &&& rcr < out.len()
                &&& rcc < self.cols
                &&& out[rcr as int][rcc as int] == self.main_buffer[self.cursor_row as int][self.cursor_col as int]
            }),
        decreases k,
    {
        let (acc, rcr0, rcc0) = self.render_prefix(k - 1);
        let i = k - 1;
        let src = self.main_buffer[i];
        let te = text_end(src) as int;
        let cols = self.cols;
        let (out, rcr, rcc) = self.render_prefix(k);
        lemma_text_end_bound(src);
        if i == self.cursor_row {
            if te <= cols {
                assert(out == acc.push(copy_prefix(src, te, cols as nat)));
                assert(out[out.len() - 1] == copy_prefix(src, te, cols as nat));
                assert(rcr == out.len() - 1);
                assert(rcc == self.cursor_col);
                assert(copy_prefix(src, te, cols as nat)[self.cursor_col as int] == src[self.cursor_col as int]);
            } else {
                let target = self.cursor_target(i);
                lemma_wrap_rows_shape(src, te, cols as int, target, 0);
                lemma_wrap_rows_hit_cell(src, te, cols as int, target, 0);
                let (rows, hit) = wrap_rows(src, te, cols as int, target, 0);
                assert(out == acc + rows);
                assert(target == self.cursor_col);
                assert(hit is Some);
                let (r, c) = hit->0;
                assert(rcr == acc.len() + r && rcc == c);
                assert(out[acc.len() + r] == rows[r]);
            }
        } else {
            if te <= cols {
                assert(out == acc.push(copy_prefix(src, te, cols as nat)));
            } else {
                assert(out == acc + wrap_rows(src, te, cols as int, self.cursor_target(i), 0).0);
            }
            self.lemma_render_prefix_cursor_cell(k - 1);
            if te <= cols {
                assert(out == acc.push(copy_prefix(src, te, cols as nat)));
                assert(out[rcr0 as int] == acc[rcr0 as int]);
            } else {
                lemma_wrap_rows_shape(src, te, cols as int, self.cursor_target(i), 0);
                let (rows, hit) = wrap_rows(src, te, cols as int, self.cursor_target(i), 0);
                assert(out == acc + rows);
                assert(out[rcr0 as int] == acc[rcr0 as int]);
            }
        }
    }

    /// After a render update the render cursor sits on the cursor's cell: the
    /// render buffer holds, at the render cursor, the cell under the cursor.
    /// This holds when the cursor is on a character of its row's text (not on
    /// a continuation cell) and each character of that row takes a column or
    /// more, as long as laying out stops.
    pub proof fn lemma_render_cursor_on_cursor_cell(self)
        requires
            self.render_defined(),
            self.cursor_row < self.main_buffer.len(),
            self.cursor_col < text_end(self.main_buffer[self.cursor_row as int]),
            self.main_buffer[self.cursor_row as int][self.cursor_col as int].ch != '\0',
            widths_positive(
                self.main_buffer[self.cursor_row as int],
                0,
                text_end(self.main_buffer[self.cursor_row as int]) as int,
            ),
            self.spec_update_render_buffer().fits_machine(),
        ensures
            ({
                let r = self.spec_update_render_buffer();
                &&& r.render_cursor_row < r.render_buffer.len()
                &&& r.render_cursor_col < self.cols
                &&& r.render_buffer[r.render_cursor_row as int][r.render_cursor_col as int]
                    == self.main_buffer[self.cursor_row as int][self.cursor_col as int]
            }),
    {
        self.lemma_render_prefix_cursor_cell(self.main_buffer.len() as int);
    }

    /// The cursor's cell, if on a row that gets wrapped, holds a character
    /// (a cursor on a continuation cell of a wrapped row has no render
    /// position of its own).
    pub open spec fn cursor_reachable(self) -> bool {
        let src = self.main_buffer[self.cursor_row as int];
        let te = text_end(src);
        te > self.cols && self.cursor_col < te ==> src[self.cursor_col as int].ch != '\0'
    }

    /// After a render update every render row is as wide as the window, every
    /// buffer row has at least one render row, and the render cursor lies in
    /// the render buffer whenever the cursor row exists and the cursor's cell
    /// has a render position.
    pub proof fn lemma_render_buffer_shape(self)
        requires
            self.render_defined(),
        ensures
            ({
                let r = self.spec_update_render_buffer();
                &&& r.render_buffer.len() >= self.main_buffer.len()
                &&& forall|i: int| 0 <= i < r.render_buffer.len() ==> #[trigger] r.render_buffer[i].len() == self.cols
                &&& (self.cursor_row < self.main_buffer.len() && self.cursor_reachable())
                    ==> r.render_cursor_row < r.render_buffer.len()
            }),
    {
        self.lemma_render_prefix_shape(self.main_buffer.len() as int);
    }
}

impl TerminalModel {
    /// A fresh terminal: one blank line, the cursor at its start, rendered.
    pub open spec fn spec_new(rows: usize, cols: usize) -> TerminalModel {
        TerminalModel {
            main_buffer: blank_rows(1),
            render_buffer: seq![blank_row(cols as nat)],
            render_buffer_dirty: false,
            cursor_row: 0,
            cursor_col: 0,
            render_cursor_row: 0,
            render_cursor_col: 0,
            rows,
            cols,
            current_color: default_color(),
            arrow_key_pressed: false,
            arrow_key_time: None,
            is_alt_screen: false,
            saved_cursor_main: (0, 0),
            saved_cursor_alt: (0, 0),
            cursor_visible: true,
            main_buffer_backup: None,
        }
    }
}

impl TerminalState {
    pub fn new(rows: usize, cols: usize) -> (s: Self)
        requires
            MAX_HISTORY_LINES + rows <= usize::MAX,
        ensures
            s@ == TerminalModel::spec_new(rows, cols),
    {
        let mut main_buffer: VecDeque<Vec<TerminalCell>> = VecDeque::with_capacity(MAX_HISTORY_LINES + rows);
        main_buffer.push_back(new_main_row());
        let mut state = TerminalState {
            main_buffer,
            render_buffer: Vec::new(),
            render_buffer_dirty: true,
            cursor_row: 0,
            cursor_col: 0,
            render_cursor_row: 0,
            render_cursor_col: 0,
            rows,
            cols,
            current_color: AnsiColor::default(),
            arrow_key_pressed: false,
            arrow_key_time: None,
            is_alt_screen: false,
            saved_cursor_main: (0, 0),
            saved_cursor_alt: (0, 0),
            cursor_visible: true,
            main_buffer_backup: None,
        };
        proof {
            lemma_blank_text_end(MAX_MAIN_BUFFER_COLS as nat);
            assert(state@.main_buffer =~= blank_rows(1));
            assert(state@.main_buffer[0] == blank_row(MAX_MAIN_BUFFER_COLS as nat));
        }
        let ghost pre = state@;
        proof {
            assert(pre.render_prefix(0) == (Seq::<Seq<TerminalCell>>::empty(), 0usize, 0usize));
            assert(text_end(pre.main_buffer[0]) == 0);
        }
        state.update_render_buffer();
        proof {
            assert(copy_prefix(blank_row(MAX_MAIN_BUFFER_COLS as nat), 0, cols as nat) =~= blank_row(cols as nat));
            assert(state@.render_buffer =~= seq![blank_row(cols as nat)]);
        }
        state
    }

    /// `render_defined`, tested: wrapping each long row terminates.
    pub fn render_buffer_can_update(&self) -> (r: bool)
        ensures
            r == self@.render_defined(),
    {
        let cols = self.cols;
        let mut i: usize = 0;
        while i < self.main_buffer.len()
            invariant
                i <= self.main_buffer.len(),
                cols == self.cols,
                forall|k: int|
                    0 <= k < i && text_end(#[trigger] self@.main_buffer[k]) > cols ==> {
                        &&& cols >= 1
                        &&& cols + 3 <= usize::MAX
                        &&& forall|j: int|
                            0 <= j < text_end(self@.main_buffer[k]) && self@.main_buffer[k][j].ch != '\0'
                                ==> cell_width(#[trigger] self@.main_buffer[k][j].ch) <= cols
                    },
            decreases self.main_buffer.len() - i,
        {
            let row = &self.main_buffer[i];
            proof {
                lemma_text_end_bound(row@);
            }
            let te = row_text_end(row);
            assert(row@ == self@.main_buffer[i as int]);
            if te > cols {
                if cols < 1 || cols > usize::MAX - 3 {
                    assert(text_end(self@.main_buffer[i as int]) > cols);
                    return false;
                }
                let mut j: usize = 0;
                while j < te
                    invariant
                        j <= te,
                        te > cols,
                        cols == self.cols,
                        i < self.main_buffer.len(),
                        te == text_end(row@),
                        te <= row.len(),
                        row@ == self@.main_buffer[i as int],
                        forall|q: int| 0 <= q < j && row@[q].ch != '\0' ==> cell_width(#[trigger] row@[q].ch) <= cols,
                    decreases te - j,
                {
                    if row[j].ch != '\0' && cell_width_of(row[j].ch) > cols {
                        assert(self@.main_buffer[i as int][j as int] == row@[j as int]);
                        assert(text_end(self@.main_buffer[i as int]) > cols);
                        return false;
                    }
                    j = j + 1;
                }
            }
            i = i + 1;
        }
        true
    }

    /// Rebuilds the render buffer when due and when laying out terminates;
    /// returns whether the layout was possible. An impossible layout leaves
    /// the state as it was.
    pub fn try_update_render_buffer_if_dirty(&mut self) -> (ok: bool)
        ensures
            ok == (!old(self).render_buffer_dirty || old(self)@.render_defined()),
            ok ==> final(self)@ == old(self)@.spec_update_render_buffer_if_dirty(),
            !ok ==> final(self)@ == old(self)@,
    {
        if self.render_buffer_dirty && !self.render_buffer_can_update() {
            return false;
        }
        self.update_render_buffer_if_dirty();
        true
    }
}

} // verus!
