use vstd::prelude::*;
use std::time::Instant;
use crate::terminal::state::{
    AnsiColor, TerminalCell, TerminalModel, TerminalState, blank_row, default_cell, default_color,
    deque_index_mut,
};
use crate::utils::color::{Rgba, ansi_256_to_rgb, spec_ansi_256_to_rgb};

verus! {

/// The parameter groups of a control sequence as sequences.
pub open spec fn params_view(p: Seq<Vec<u16>>) -> Seq<Seq<u16>> {
    p.map_values(|g: Vec<u16>| g@)
}

/// Parameter `n` of a control sequence (the first value of its group), or
/// `default` when the sequence has fewer parameters.
pub open spec fn param_or(p: Seq<Seq<u16>>, n: int, default: u16) -> u16 {
    if p.len() > n { p[n][0] } else { default }
}

/// Parameter `n`, where present, has a value.
pub open spec fn param_present(p: Seq<Seq<u16>>, n: int) -> bool {
    p.len() > n ==> p[n].len() > 0
}

/// `row` with the cells in columns `a` up to (not including) `b` blanked.
pub open spec fn clear_range(row: Seq<TerminalCell>, a: int, b: int) -> Seq<TerminalCell> {
    Seq::new(row.len(), |k: int| if a <= k < b { default_cell() } else { row[k] })
}

fn param_value(params: &Vec<Vec<u16>>, n: usize, default: u16) -> (v: u16)
    requires
        param_present(params_view(params@), n as int),
    ensures
        v == param_or(params_view(params@), n as int, default),
{
    if params.len() > n {
        params[n][0]
    } else {
        default
    }
}

/// Blanks the cells of `row` in columns `a` up to `b` that exist.
fn clear_cells(row: &mut Vec<TerminalCell>, a: usize, b: usize)
    ensures
        final(row)@ == clear_range(old(row)@, a as int, b as int),
{
    let end = if b < row.len() { b } else { row.len() };
    let mut k = a;
    while k < end
        invariant
            a <= k,
            k <= end || k == a,
            end <= row.len(),
            end == if b < old(row)@.len() { b as int } else { old(row)@.len() as int },
            row@.len() == old(row)@.len(),
            forall|q: int| 0 <= q < row@.len() ==> #[trigger] row@[q] == if a <= q < k { default_cell() } else { old(row)@[q] },
        decreases end - k,
    {
        row[k] = TerminalCell::default();
        k = k + 1;
    }
    assert(row@ =~= clear_range(old(row)@, a as int, b as int));
}

impl TerminalModel {
    /// Rows the cursor may move down to: the screen in the alternative screen,
    /// the buffer otherwise.
    pub open spec fn row_limit(self) -> int {
        if self.is_alt_screen { self.rows as int } else { self.main_buffer.len() as int }
    }

    /// ED (erase in display) with parameter `param`.
    pub open spec fn erase_in_display_defined(self, param: u16) -> bool {
        &&& (param == 0 && !self.is_alt_screen) ==> self.cursor_row < usize::MAX
        &&& (param == 1 && self.is_alt_screen) ==> self.cursor_col < usize::MAX
        &&& (param == 2 || param == 3) ==> (self.is_alt_screen ==> self.rows >= 1 && self.cols >= 1)
    }

    pub open spec fn spec_erase_in_display(self, param: u16) -> (TerminalModel, bool) {
        let m = self.main_buffer;
        let cr = self.cursor_row as int;
        let cc = self.cursor_col as int;
        if param == 0 {
            let main = if self.is_alt_screen {
                Seq::new(m.len(), |r: int| if cr <= r < self.rows {
                    clear_range(m[r], if r == cr { cc } else { 0 }, self.cols as int)
                } else {
                    m[r]
                })
            } else {
                Seq::new(m.len(), |r: int| if r == cr {
                    clear_range(m[r], cc, m[r].len() as int)
                } else if r > cr {
                    blank_row(m[r].len())
                } else {
                    m[r]
                })
            };
            (TerminalModel { main_buffer: main, render_buffer_dirty: true, ..self }, true)
        } else if param == 1 {
            let main = if self.is_alt_screen {
                Seq::new(m.len(), |r: int| if r < cr {
                    clear_range(m[r], 0, self.cols as int)
                } else if r == cr {
                    clear_range(m[r], 0, cc + 1)
                } else {
                    m[r]
                })
            } else {
                Seq::new(m.len(), |r: int| if r < cr {
                    blank_row(m[r].len())
                } else if r == cr {
                    clear_range(m[r], 0, cc + 1)
                } else {
                    m[r]
                })
            };
            (TerminalModel { main_buffer: main, render_buffer_dirty: true, ..self }, true)
        } else if param == 2 || param == 3 {
            let main = if self.is_alt_screen {
                Seq::new(m.len(), |r: int| blank_row(m[r].len()))
            } else {
                seq![blank_row(self.cols as nat)]
            };
            let cleared = TerminalModel { main_buffer: main, ..self };
            (cleared.spec_move_cursor_to(0, 0), true)
        } else {
            (self, false)
        }
    }

    /// EL (erase in line) with parameter `param`; the cursor row must exist.
    pub open spec fn spec_erase_in_line(self, param: u16) -> TerminalModel {
        let row = self.main_buffer[self.cursor_row as int];
        let cc = self.cursor_col as int;
        let new_row = if param == 0 {
            clear_range(row, cc, row.len() as int)
        } else if param == 1 {
            clear_range(row, 0, cc + 1)
        } else if param == 2 {
            blank_row(row.len())
        } else {
            row
        };
        TerminalModel {
            main_buffer: self.main_buffer.update(self.cursor_row as int, new_row),
            render_buffer_dirty: true,
            ..self
        }
    }

    /// ECH (erase characters): `count` cells from the cursor, within the width.
    pub open spec fn spec_erase_characters(self, count: u16) -> TerminalModel {
        let m = self.main_buffer;
        let cr = self.cursor_row as int;
        let cc = self.cursor_col as int;
        let main = if cr < m.len() {
            m.update(cr, clear_range(m[cr], cc, if cc + count < self.cols { cc + count } else { self.cols as int }))
        } else {
            m
        };
        TerminalModel { main_buffer: main, render_buffer_dirty: true, ..self }
    }

    /// The saved cursor of the screen in use.
    pub open spec fn saved_cursor(self) -> (usize, usize) {
        if self.is_alt_screen { self.saved_cursor_alt } else { self.saved_cursor_main }
    }

    /// Saves the cursor for the screen in use.
    pub open spec fn spec_save_cursor(self) -> TerminalModel {
        if self.is_alt_screen {
            TerminalModel { saved_cursor_alt: (self.cursor_row, self.cursor_col), ..self }
        } else {
            TerminalModel { saved_cursor_main: (self.cursor_row, self.cursor_col), ..self }
        }
    }

    pub open spec fn spec_restore_cursor(self) -> TerminalModel {
        self.spec_move_cursor_to(self.saved_cursor().0, self.saved_cursor().1)
    }
}

impl TerminalState {
    /// Saves the cursor for the screen in use.
    pub fn save_cursor(&mut self)
        ensures
            final(self)@ == old(self)@.spec_save_cursor(),
    {
        if self.is_alt_screen {
            self.saved_cursor_alt = (self.cursor_row, self.cursor_col);
        } else {
            self.saved_cursor_main = (self.cursor_row, self.cursor_col);
        }
    }

    /// Moves the cursor back to where it was saved for the screen in use.
    pub fn restore_cursor(&mut self)
        requires
            old(self)@.move_cursor_defined(),
        ensures
            final(self)@ == old(self)@.spec_restore_cursor(),
    {
        let (row, col) = if self.is_alt_screen { self.saved_cursor_alt } else { self.saved_cursor_main };
        self.move_cursor_to(row, col);
    }

    /// ED: erases part of the screen; returns whether the state changed.
    pub fn erase_in_display(&mut self, param: u16) -> (changed: bool)
        requires
            old(self)@.erase_in_display_defined(param),
        ensures
            (final(self)@, changed) == old(self)@.spec_erase_in_display(param),
    {
        let ghost m = old(self)@.main_buffer;
        let cr = self.cursor_row;
        let cc = self.cursor_col;
        if param == 0 {
            if self.is_alt_screen {
                let rows = self.rows;
                let cols = self.cols;
                let mut r = cr;
                while r < rows && r < self.main_buffer.len()
                    invariant
                        cr <= r,
                        r <= rows || r == cr,
                        r <= m.len() || r == cr,
                        cr == old(self).cursor_row,
                        cc == old(self).cursor_col,
                        self@ == (TerminalModel { main_buffer: self@.main_buffer, ..old(self)@ }),
                        rows == self.rows,
                        cols == self.cols,
                        self@.main_buffer.len() == m.len(),
                        forall|q: int| 0 <= q < m.len() ==> #[trigger] self@.main_buffer[q] == if cr <= q < r {
                            clear_range(m[q], if q == cr { cc as int } else { 0 }, cols as int)
                        } else {
                            m[q]
                        },
                    decreases self.main_buffer.len() - r,
                {
                    let start = if r == cr { cc } else { 0 };
                    let ghost prev = self@.main_buffer;
                    assert(self.main_buffer@[r as int]@ == prev[r as int]);
                    clear_cells(deque_index_mut(&mut self.main_buffer, r), start, cols);
                    assert(self@.main_buffer =~= prev.update(r as int, clear_range(prev[r as int], start as int, cols as int)));
                    r = r + 1;
                }
            } else {
                if cr < self.main_buffer.len() {
                    let len = self.main_buffer[cr].len();
                    let ghost prev = self@.main_buffer;
                    assert(self.main_buffer@[cr as int]@ == prev[cr as int]);
                    clear_cells(deque_index_mut(&mut self.main_buffer, cr), cc, len);
                    assert(self@.main_buffer =~= prev.update(cr as int, clear_range(prev[cr as int], cc as int, len as int)));
                }
                let mut r = cr + 1;
                while r < self.main_buffer.len()
                    invariant
                        self@ == (TerminalModel { main_buffer: self@.main_buffer, ..old(self)@ }),
                        self@.main_buffer.len() == m.len(),
                        cr < r,
                        r <= m.len() || r == cr + 1,
                        cr == old(self).cursor_row,
                        cc == old(self).cursor_col,
                        forall|q: int| 0 <= q < m.len() ==> #[trigger] self@.main_buffer[q] == if q == cr {
                            clear_range(m[q], cc as int, m[q].len() as int)
                        } else if cr < q < r {
                            blank_row(m[q].len())
                        } else {
                            m[q]
                        },
                    decreases self.main_buffer.len() - r,
                {
                    let len = self.main_buffer[r].len();
                    let ghost prev = self@.main_buffer;
                    assert(self.main_buffer@[r as int]@ == prev[r as int]);
                    clear_cells(deque_index_mut(&mut self.main_buffer, r), 0, len);
                    assert(self@.main_buffer =~= prev.update(r as int, clear_range(prev[r as int], 0 as int, len as int)));
                    assert(clear_range(m[r as int], 0, len as int) =~= blank_row(m[r as int].len()));
                    r = r + 1;
                }
            }
            self.mark_render_dirty();
            assert(self@.main_buffer =~= old(self)@.spec_erase_in_display(param).0.main_buffer);
            true
        } else if param == 1 {
            let cols = self.cols;
            let mut r: usize = 0;
            while r <= cr && r < self.main_buffer.len()
                invariant
                    self@ == (TerminalModel { main_buffer: self@.main_buffer, ..old(self)@ }),
                    self@.main_buffer.len() == m.len(),
                    cols == self.cols,
                    old(self)@.erase_in_display_defined(param),
                    param == 1,
                    r <= cr + 1,
                    cr == old(self).cursor_row,
                    cc == old(self).cursor_col,
                    forall|q: int| 0 <= q < m.len() ==> #[trigger] self@.main_buffer[q] == if q < r && q < cr {
                        if old(self).is_alt_screen { clear_range(m[q], 0, cols as int) } else { blank_row(m[q].len()) }
                    } else if q < r && q == cr {
                        clear_range(m[q], 0, cc + 1)
                    } else {
                        m[q]
                    },
                decreases self.main_buffer.len() - r,
            {
                let len = self.main_buffer[r].len();
                if r == cr {
                    let end = if self.is_alt_screen { cc + 1 } else if cc < len { cc + 1 } else { len };
                    let ghost prev = self@.main_buffer;
                    assert(self.main_buffer@[r as int]@ == prev[r as int]);
                    clear_cells(deque_index_mut(&mut self.main_buffer, r), 0, end);
                    assert(self@.main_buffer =~= prev.update(r as int, clear_range(prev[r as int], 0 as int, end as int)));
                    assert(clear_range(m[r as int], 0, end as int) =~= clear_range(m[r as int], 0, cc + 1));
                } else if self.is_alt_screen {
                    let ghost prev = self@.main_buffer;
                    assert(self.main_buffer@[r as int]@ == prev[r as int]);
                    clear_cells(deque_index_mut(&mut self.main_buffer, r), 0, cols);
                    assert(self@.main_buffer =~= prev.update(r as int, clear_range(prev[r as int], 0 as int, cols as int)));
                } else {
                    let ghost prev = self@.main_buffer;
                    assert(self.main_buffer@[r as int]@ == prev[r as int]);
                    clear_cells(deque_index_mut(&mut self.main_buffer, r), 0, len);
                    assert(self@.main_buffer =~= prev.update(r as int, clear_range(prev[r as int], 0 as int, len as int)));
                    assert(clear_range(m[r as int], 0, len as int) =~= blank_row(m[r as int].len()));
                }
                r = r + 1;
            }
            self.mark_render_dirty();
            assert(self@.main_buffer =~= old(self)@.spec_erase_in_display(param).0.main_buffer);
            true
        } else if param == 2 || param == 3 {
            if self.is_alt_screen {
                let mut r: usize = 0;
                while r < self.main_buffer.len()
                    invariant
                        self@ == (TerminalModel { main_buffer: self@.main_buffer, ..old(self)@ }),
                        self@.main_buffer.len() == m.len(),
                        forall|q: int| 0 <= q < m.len() ==> #[trigger] self@.main_buffer[q] == if q < r {
                            blank_row(m[q].len())
                        } else {
                            m[q]
                        },
                    decreases self.main_buffer.len() - r,
                {
                    let len = self.main_buffer[r].len();
                    let ghost prev = self@.main_buffer;
                    assert(self.main_buffer@[r as int]@ == prev[r as int]);
                    clear_cells(deque_index_mut(&mut self.main_buffer, r), 0, len);
                    assert(self@.main_buffer =~= prev.update(r as int, clear_range(prev[r as int], 0 as int, len as int)));
                    assert(clear_range(m[r as int], 0, len as int) =~= blank_row(m[r as int].len()));
                    r = r + 1;
                }
                assert(self@.main_buffer =~= Seq::new(m.len(), |q: int| blank_row(m[q].len())));
            } else {
                let cols = self.cols;
                self.main_buffer.clear();
                self.main_buffer.push_back(vec![TerminalCell::default(); cols]);
                assert(self.main_buffer@[0]@ =~= blank_row(cols as nat));
                assert(self@.main_buffer =~= seq![blank_row(cols as nat)]);
            }
            self.move_cursor_to(0, 0);
            self.mark_render_dirty();
            true
        } else {
            false
        }
    }
}

/// Colour `idx` of the 256-colour palette.
pub open spec fn palette(idx: int) -> Rgba {
    spec_ansi_256_to_rgb(idx as u8)
}

/// Effect of SGR code `code` at parameter `i` on `color`, and how many of the
/// following parameters it consumed (extended colours take two or four).
pub open spec fn sgr_code(color: AnsiColor, p: Seq<Seq<u16>>, i: int, code: u16) -> (AnsiColor, int) {
    if code == 0 {
        (default_color(), 0)
    } else if code == 1 {
        (AnsiColor { bold: true, ..color }, 0)
    } else if code == 3 {
        (AnsiColor { italic: true, ..color }, 0)
    } else if code == 4 {
        (AnsiColor { underline: true, ..color }, 0)
    } else if code == 7 {
        (AnsiColor { reverse: true, ..color }, 0)
    } else if code == 22 {
        (AnsiColor { bold: false, ..color }, 0)
    } else if code == 23 {
        (AnsiColor { italic: false, ..color }, 0)
    } else if code == 24 {
        (AnsiColor { underline: false, ..color }, 0)
    } else if code == 27 {
        (AnsiColor { reverse: false, ..color }, 0)
    } else if 30 <= code <= 37 {
        (AnsiColor { foreground: palette(code - 30), ..color }, 0)
    } else if 90 <= code <= 97 {
        (AnsiColor { foreground: palette(code - 90 + 8), ..color }, 0)
    } else if 40 <= code <= 47 {
        (AnsiColor { background: palette(code - 40), ..color }, 0)
    } else if 100 <= code <= 107 {
        (AnsiColor { background: palette(code - 100 + 8), ..color }, 0)
    } else if code == 39 {
        (AnsiColor { foreground: Rgba::rgb(203, 204, 205), ..color }, 0)
    } else if code == 49 {
        (AnsiColor { background: Rgba { r: 0, g: 0, b: 0, a: 0 }, ..color }, 0)
    } else if code == 38 || code == 48 {
        let fg = code == 38;
        if i + 2 < p.len() && p[i + 1].len() > 0 {
            let sub = p[i + 1][0];
            if sub == 5 {
                if p[i + 2].len() > 0 {
                    let c = palette(p[i + 2][0] as int);
                    (if fg { AnsiColor { foreground: c, ..color } } else { AnsiColor { background: c, ..color } }, 2)
                } else {
                    (color, 0)
                }
            } else if sub == 2 && i + 4 < p.len() {
                if p[i + 2].len() > 0 && p[i + 3].len() > 0 && p[i + 4].len() > 0 {
                    let c = Rgba::rgb(p[i + 2][0] as u8, p[i + 3][0] as u8, p[i + 4][0] as u8);
                    (if fg { AnsiColor { foreground: c, ..color } } else { AnsiColor { background: c, ..color } }, 4)
                } else {
                    (color, 0)
                }
            } else {
                (color, 0)
            }
        } else {
            (color, 0)
        }
    } else {
        (color, 0)
    }
}

/// SGR parameters from `i` on, applied in order to `color`; empty groups are skipped.
pub open spec fn sgr_from(color: AnsiColor, p: Seq<Seq<u16>>, i: int) -> AnsiColor
    decreases p.len() - i,
{
    if 0 <= i < p.len() {
        if p[i].len() == 0 {
            sgr_from(color, p, i + 1)
        } else {
            let (c2, k) = sgr_code(color, p, i, p[i][0]);
            if k >= 0 {
                sgr_from(c2, p, i + 1 + k)
            } else {
                c2
            }
        }
    } else {
        color
    }
}

/// SGR (select graphic rendition): no parameters reset the attributes.
pub open spec fn spec_sgr(color: AnsiColor, p: Seq<Seq<u16>>) -> AnsiColor {
    if p.len() == 0 {
        default_color()
    } else {
        sgr_from(color, p, 0)
    }
}

/// Colour of entry `idx` of the palette, as the library computes it.
fn palette_color(idx: u16) -> (c: Rgba)
    ensures
        c == palette(idx as int),
{
    ansi_256_to_rgb(idx as u8)
}

/// Applies one SGR code at parameter `i`; returns how many further parameters it used.
fn apply_sgr_code(color: &mut AnsiColor, params: &Vec<Vec<u16>>, i: usize, code: u16) -> (k: usize)
    requires
        i < params.len(),
    ensures
        (*final(color), k as int) == sgr_code(*old(color), params_view(params@), i as int, code),
        k <= 4,
{
    let ghost p = params_view(params@);
    if code == 0 {
        *color = AnsiColor::default();
    } else if code == 1 {
        color.bold = true;
    } else if code == 3 {
        color.italic = true;
    } else if code == 4 {
        color.underline = true;
    } else if code == 7 {
        color.reverse = true;
    } else if code == 22 {
        color.bold = false;
    } else if code == 23 {
        color.italic = false;
    } else if code == 24 {
        color.underline = false;
    } else if code == 27 {
        color.reverse = false;
    } else if 30 <= code && code <= 37 {
        color.foreground = palette_color(code - 30);
    } else if 90 <= code && code <= 97 {
        color.foreground = palette_color(code - 90 + 8);
    } else if 40 <= code && code <= 47 {
        color.background = palette_color(code - 40);
    } else if 100 <= code && code <= 107 {
        color.background = palette_color(code - 100 + 8);
    } else if code == 39 {
        color.foreground = Rgba::from_rgb(203, 204, 205);
    } else if code == 49 {
        color.background = Rgba::transparent();
    } else if code == 38 || code == 48 {
        let fg = code == 38;
        if params.len() >= 3 && i < params.len() - 2 && params[i + 1].len() > 0 {
            let sub = params[i + 1][0];
            if sub == 5 {
                if params[i + 2].len() > 0 {
                    let c = palette_color(params[i + 2][0]);
                    if fg {
                        color.foreground = c;
                    } else {
                        color.background = c;
                    }
                    return 2;
                }
            } else if sub == 2 && params.len() >= 5 && i < params.len() - 4 {
                if params[i + 2].len() > 0 && params[i + 3].len() > 0 && params[i + 4].len() > 0 {
                    let c = Rgba::from_rgb(params[i + 2][0] as u8, params[i + 3][0] as u8, params[i + 4][0] as u8);
                    if fg {
                        color.foreground = c;
                    } else {
                        color.background = c;
                    }
                    return 4;
                }
            }
        }
    }
    0
}

impl TerminalState {
    /// SGR: sets colours and text attributes for the characters that follow.
    pub fn select_graphic_rendition(&mut self, params: &Vec<Vec<u16>>)
        ensures
            final(self)@ == (TerminalModel {
                current_color: spec_sgr(old(self).current_color, params_view(params@)),
                ..old(self)@
            }),
    {
        let ghost p = params_view(params@);
        if params.len() == 0 {
            self.current_color = AnsiColor::default();
            return;
        }
        let mut color = self.current_color;
        let mut i: usize = 0;
        while i < params.len()
            invariant
                p == params_view(params@),
                sgr_from(color, p, i as int) == sgr_from(old(self).current_color, p, 0),
            decreases params.len() - i,
        {
            if params[i].len() > 0 {
                let code = params[i][0];
                let k = apply_sgr_code(&mut color, params, i, code);
                i = i + 1;
                if k > params.len() - i {
                    i = params.len();
                } else {
                    i = i + k;
                }
            } else {
                i = i + 1;
            }
        }
        self.current_color = color;
    }
}

/// Whether `v` holds the byte `b`.
fn has_byte(v: &Vec<u8>, b: u8) -> (r: bool)
    ensures
        r == v@.contains(b),
{
    let mut i: usize = 0;
    while i < v.len()
        invariant
            i <= v.len(),
            forall|k: int| 0 <= k < i ==> v@[k] != b,
        decreases v.len() - i,
    {
        if v[i] == b {
            assert(v@[i as int] == b);
            return true;
        }
        i = i + 1;
    }
    false
}

/// Parameter of a cursor-motion sequence (default 1) as a count.
pub open spec fn count_param(p: Seq<Seq<u16>>) -> usize {
    param_or(p, 0, 1) as usize
}

/// Count of a cursor motion: the parameter (default 1), where 0 means 1 as
/// ANSI has it.
pub open spec fn motion_count(p: Seq<Seq<u16>>) -> usize {
    let n = count_param(p);
    if n == 0 { 1 } else { n }
}

/// A 1-based position parameter (default 1) as a 0-based index.
pub open spec fn position_param(p: Seq<Seq<u16>>, n: int) -> usize {
    let v = param_or(p, n, 1);
    (if v == 0 { 0 } else { v - 1 }) as usize
}

impl TerminalModel {
    /// SM/RM (set and reset mode, `c` being `h` or `l`); only the private
    /// modes 25 (cursor visibility) and 1049 (alternative screen) act.
    pub open spec fn spec_set_mode(self, p: Seq<Seq<u16>>, inter: Seq<u8>, c: char) -> (TerminalModel, bool) {
        if p.len() > 0 && inter.contains(63u8) {
            let mode = p[0][0];
            if mode == 25 {
                (TerminalModel { cursor_visible: c == 'h', ..self }, true)
            } else if mode == 1049 {
                (
                    if c == 'h' {
                        self.spec_switch_to_alt_screen()
                    } else {
                        self.spec_switch_to_main_screen()
                    },
                    true,
                )
            } else {
                (self, false)
            }
        } else {
            (self, false)
        }
    }

    /// A control sequence with final character `c` is handled without a panic:
    /// the parameters it reads have values, the bounds it clamps to exist, the
    /// row it edits exists, and its arithmetic does not overflow.
    pub open spec fn csi_defined(self, p: Seq<Seq<u16>>, c: char) -> bool {
        let n = count_param(p);
        if c == 'H' || c == 'f' {
            param_present(p, 0) && param_present(p, 1) && self.move_cursor_defined()
        } else if c == 'J' {
            param_present(p, 0) && self.erase_in_display_defined(param_or(p, 0, 0))
        } else if c == 'K' {
            param_present(p, 0) && self.cursor_row < self.main_buffer.len()
        } else if c == 'A' || c == 'D' {
            param_present(p, 0)
        } else if c == 'B' {
            param_present(p, 0) && self.row_limit() >= 1 && self.cursor_row + motion_count(p) <= usize::MAX
        } else if c == 'C' {
            param_present(p, 0) && self.cols >= 1 && self.cursor_col + motion_count(p) <= usize::MAX
        } else if c == 'h' || c == 'l' {
            param_present(p, 0)
        } else if c == 'd' {
            param_present(p, 0) && self.row_limit() >= 1
        } else if c == 'G' {
            param_present(p, 0) && self.cols >= 1
        } else if c == 'X' {
            param_present(p, 0) && (self.cursor_row < self.main_buffer.len() ==> self.cursor_col + n <= usize::MAX + 1)
        } else if c == 'u' {
            self.move_cursor_defined()
        } else {
            true
        }
    }

    /// Effect of the control sequence `ESC [ params intermediates c`, and
    /// whether the screen changed; `t` is the time the cursor keys record.
    pub open spec fn spec_csi_dispatch(
        self,
        p: Seq<Seq<u16>>,
        inter: Seq<u8>,
        c: char,
        t: Option<Instant>,
    ) -> (TerminalModel, bool) {
        let n = count_param(p);
        if c == 'H' || c == 'f' {
            (self.spec_move_cursor_to(position_param(p, 0), position_param(p, 1)), true)
        } else if c == 'J' {
            self.spec_erase_in_display(param_or(p, 0, 0))
        } else if c == 'K' {
            (self.spec_erase_in_line(param_or(p, 0, 0)), true)
        } else if c == 'A' {
            let k = motion_count(p);
            let row = if self.cursor_row >= k { (self.cursor_row - k) as usize } else { 0 };
            (self.with_cursor(row, self.cursor_col).with_protection(t), true)
        } else if c == 'B' {
            let lim = (self.row_limit() - 1) as usize;
            let want = (self.cursor_row + motion_count(p)) as usize;
            (self.with_cursor(if want < lim { want } else { lim }, self.cursor_col).with_protection(t), true)
        } else if c == 'C' {
            let lim = (self.cols - 1) as usize;
            let want = (self.cursor_col + motion_count(p)) as usize;
            (self.with_cursor(self.cursor_row, if want < lim { want } else { lim }).with_protection(t), true)
        } else if c == 'D' {
            let k = motion_count(p);
            let col = if self.cursor_col >= k { (self.cursor_col - k) as usize } else { 0 };
            (self.with_cursor(self.cursor_row, col).with_protection(t), true)
        } else if c == 'm' {
            (TerminalModel { current_color: spec_sgr(self.current_color, p), ..self }, true)
        } else if c == 'h' || c == 'l' {
            self.spec_set_mode(p, inter, c)
        } else if c == 'd' {
            let lim = (self.row_limit() - 1) as usize;
            let want = position_param(p, 0);
            (self.with_cursor(if want < lim { want } else { lim }, self.cursor_col), true)
        } else if c == 'G' {
            let lim = (self.cols - 1) as usize;
            let want = position_param(p, 0);
            (self.with_cursor(self.cursor_row, if want < lim { want } else { lim }), true)
        } else if c == 'X' {
            (self.spec_erase_characters(param_or(p, 0, 1)), true)
        } else if c == 's' {
            (self.spec_save_cursor(), true)
        } else if c == 'u' {
            (self.spec_restore_cursor(), true)
        } else {
            (self, false)
        }
    }
}

impl TerminalState {
    /// EL: erases part of the cursor row.
    pub fn erase_in_line(&mut self, param: u16)
        requires
            old(self).cursor_row < old(self).main_buffer.len(),
        ensures
            final(self)@ == old(self)@.spec_erase_in_line(param),
    {
        let r = self.cursor_row;
        let cc = self.cursor_col;
        let ghost prev = self@.main_buffer;
        assert(self.main_buffer@[r as int]@ == prev[r as int]);
        let len = self.main_buffer[r].len();
        if param == 0 {
            clear_cells(deque_index_mut(&mut self.main_buffer, r), cc, len);
        } else if param == 1 {
            let end = if cc < len { cc + 1 } else { len };
            clear_cells(deque_index_mut(&mut self.main_buffer, r), 0, end);
            assert(clear_range(prev[r as int], 0, end as int) =~= clear_range(prev[r as int], 0, cc + 1));
        } else if param == 2 {
            clear_cells(deque_index_mut(&mut self.main_buffer, r), 0, len);
            assert(clear_range(prev[r as int], 0, len as int) =~= blank_row(prev[r as int].len()));
        }
        self.mark_render_dirty();
        assert(self@.main_buffer =~= old(self)@.spec_erase_in_line(param).main_buffer);
    }

    /// ECH: blanks `count` cells from the cursor on, within the screen width.
    pub fn erase_characters(&mut self, count: u16)
        requires
            old(self).cursor_row < old(self).main_buffer.len() ==> old(self).cursor_col + count <= usize::MAX + 1,
        ensures
            final(self)@ == old(self)@.spec_erase_characters(count),
    {
        let r = self.cursor_row;
        let cc = self.cursor_col;
        let cols = self.cols;
        let ghost prev = self@.main_buffer;
        if r < self.main_buffer.len() {
            assert(self.main_buffer@[r as int]@ == prev[r as int]);
            let extra: usize = if count == 0 { 0 } else { (count - 1) as usize };
            let end = if count == 0 { cc } else if cc + extra < cols { cc + extra + 1 } else { cols };
            clear_cells(deque_index_mut(&mut self.main_buffer, r), cc, end);
            assert(clear_range(prev[r as int], cc as int, end as int) =~= clear_range(
                prev[r as int],
                cc as int,
                if cc + count < cols { cc + count } else { cols as int },
            ));
        }
        self.mark_render_dirty();
        assert(self@.main_buffer =~= old(self)@.spec_erase_characters(count).main_buffer);
    }

    /// SM/RM: sets or resets a mode; returns whether the state changed.
    pub fn set_mode(&mut self, params: &Vec<Vec<u16>>, intermediates: &Vec<u8>, c: char) -> (changed: bool)
        requires
            param_present(params_view(params@), 0),
        ensures
            (final(self)@, changed) == old(self)@.spec_set_mode(params_view(params@), intermediates@, c),
    {
        let private_mode = has_byte(intermediates, 63u8);
        if params.len() > 0 && private_mode {
            let mode = params[0][0];
            if mode == 25 {
                self.cursor_visible = c == 'h';
                true
            } else if mode == 1049 {
                if c == 'h' {
                    self.switch_to_alt_screen();
                } else {
                    self.switch_to_main_screen();
                }
                true
            } else {
                false
            }
        } else {
            false
        }
    }

    /// Handles the control sequence `ESC [ params intermediates c`; returns
    /// whether the screen changed. Each parameter group is the list of a
    /// parameter's values.
    pub fn csi_dispatch(&mut self, params: &Vec<Vec<u16>>, intermediates: &Vec<u8>, c: char) -> (changed: bool)
        requires
            old(self)@.csi_defined(params_view(params@), c),
        ensures
            (final(self)@, changed) == old(self)@.spec_csi_dispatch(
                params_view(params@),
                intermediates@,
                c,
                final(self).arrow_key_time,
            ),
            (c == 'A' || c == 'B' || c == 'C' || c == 'D') ==> final(self).arrow_key_pressed
                && final(self).arrow_key_time is Some,
    {
        let ghost p = params_view(params@);
        if c == 'H' || c == 'f' {
            let row = param_value(params, 0, 1);
            let col = param_value(params, 1, 1);
            let row = (if row == 0 { 0 } else { row - 1 }) as usize;
            let col = (if col == 0 { 0 } else { col - 1 }) as usize;
            self.move_cursor_to(row, col);
            true
        } else if c == 'J' {
            let param = param_value(params, 0, 0);
            self.erase_in_display(param)
        } else if c == 'K' {
            let param = param_value(params, 0, 0);
            self.erase_in_line(param);
            true
        } else if c == 'A' {
            let count = param_value(params, 0, 1) as usize;
            let count = if count == 0 { 1 } else { count };
            self.cursor_row = self.cursor_row.saturating_sub(count);
            self.set_arrow_key_protection();
            true
        } else if c == 'B' {
            let count = param_value(params, 0, 1) as usize;
            let count = if count == 0 { 1 } else { count };
            let rows = if self.is_alt_screen { self.rows } else { self.main_buffer.len() };
            let want = self.cursor_row + count;
            let lim = rows - 1;
            self.cursor_row = if want < lim { want } else { lim };
            self.set_arrow_key_protection();
            true
        } else if c == 'C' {
            let count = param_value(params, 0, 1) as usize;
            let count = if count == 0 { 1 } else { count };
            let want = self.cursor_col + count;
            let lim = self.cols - 1;
            self.cursor_col = if want < lim { want } else { lim };
            self.set_arrow_key_protection();
            true
        } else if c == 'D' {
            let count = param_value(params, 0, 1) as usize;
            let count = if count == 0 { 1 } else { count };
            self.cursor_col = self.cursor_col.saturating_sub(count);
            self.set_arrow_key_protection();
            true
        } else if c == 'm' {
            self.select_graphic_rendition(params);
            true
        } else if c == 'h' || c == 'l' {
            self.set_mode(params, intermediates, c)
        } else if c == 'd' {
            let row = param_value(params, 0, 1);
            let row = (if row == 0 { 0 } else { row - 1 }) as usize;
            let rows = if self.is_alt_screen { self.rows } else { self.main_buffer.len() };
            let lim = rows - 1;
            self.cursor_row = if row < lim { row } else { lim };
            true
        } else if c == 'G' {
            let col = param_value(params, 0, 1);
            let col = (if col == 0 { 0 } else { col - 1 }) as usize;
            let lim = self.cols - 1;
            self.cursor_col = if col < lim { col } else { lim };
            true
        } else if c == 'X' {
            let count = param_value(params, 0, 1);
            self.erase_characters(count);
            true
        } else if c == 's' {
            self.save_cursor();
            true
        } else if c == 'u' {
            self.restore_cursor();
            true
        } else {
            false
        }
    }

    /// Handles `ESC byte`: `7` saves the cursor, `8` restores it. Returns
    /// whether the state changed.
    pub fn esc_dispatch(&mut self, byte: u8) -> (changed: bool)
        requires
            byte == 56 ==> old(self)@.move_cursor_defined(),
        ensures
            byte == 55 ==> final(self)@ == old(self)@.spec_save_cursor() && changed,
            byte == 56 ==> final(self)@ == old(self)@.spec_restore_cursor() && changed,
            byte != 55 && byte != 56 ==> final(self)@ == old(self)@ && !changed,
    {
        if byte == 55 {
            self.save_cursor();
            true
        } else if byte == 56 {
            self.restore_cursor();
            true
        } else {
            false
        }
    }
}

/// The next tab stop after column `col`; stops are every eight columns.
pub open spec fn next_tab_stop(col: usize) -> int {
    (col / 8 + 1) * 8
}

impl TerminalModel {
    /// A control byte is handled without a panic: a line feed can create the
    /// next row, and a tab has a last column to stop at.
    pub open spec fn execute_defined(self, byte: u8) -> bool {
        &&& byte == 10 ==> self.newline_defined()
        &&& byte == 9 ==> self.cols >= 1 && next_tab_stop(self.cursor_col) <= usize::MAX
    }

    /// Effect of the control byte `byte`, with whether the screen changed and
    /// whether it should be redrawn at once. `protected` tells whether a
    /// recent arrow key suppresses a backspace.
    pub open spec fn spec_execute(self, byte: u8, protected: bool) -> (TerminalModel, (bool, bool)) {
        if byte == 10 {
            (self.spec_newline(), (true, true))
        } else if byte == 13 {
            (self.spec_carriage_return(), (true, true))
        } else if byte == 8 || byte == 127 {
            if protected {
                (self, (false, false))
            } else {
                (self.spec_backspace(), (true, false))
            }
        } else if byte == 9 {
            let next = next_tab_stop(self.cursor_col);
            let col = if next < self.cols { next as usize } else { (self.cols - 1) as usize };
            (self.with_cursor(self.cursor_row, col), (true, false))
        } else if byte == 12 {
            (self.without_protection().spec_clear_screen(), (true, true))
        } else {
            (self, (false, false))
        }
    }
}

impl TerminalState {
    /// Handles a C0 control byte: line feed, carriage return, backspace and
    /// delete (unless a recent arrow key protects the line), tab, form feed.
    /// Returns whether the screen changed and whether to redraw at once.
    pub fn execute(&mut self, byte: u8) -> (r: (bool, bool))
        requires
            old(self)@.execute_defined(byte),
        ensures
            (final(self)@, r) == old(self)@.spec_execute(byte, (byte == 8 || byte == 127) && !r.0),
            (byte == 8 || byte == 127) && !r.0 ==> old(self).arrow_key_pressed && old(self).arrow_key_time is Some,
    {
        if byte == 10 {
            self.newline();
            (true, true)
        } else if byte == 13 {
            self.carriage_return();
            (true, true)
        } else if byte == 8 || byte == 127 {
            if !self.should_protect_from_arrow_key() {
                self.backspace();
                (true, false)
            } else {
                (false, false)
            }
        } else if byte == 9 {
            let next_tab_stop = (self.cursor_col / 8 + 1) * 8;
            if next_tab_stop < self.cols {
                self.cursor_col = next_tab_stop;
            } else {
                self.cursor_col = self.cols - 1;
            }
            (true, false)
        } else if byte == 12 {
            self.clear_arrow_key_protection();
            self.clear_screen();
            (true, true)
        } else {
            (false, false)
        }
    }
}

impl TerminalState {
    /// `move_cursor_defined`, tested.
    pub fn can_move_cursor(&self) -> (r: bool)
        ensures
            r == self@.move_cursor_defined(),
    {
        if self.is_alt_screen {
            self.rows >= 1 && self.cols >= 1
        } else {
            self.main_buffer.len() >= 1
        }
    }

    /// `execute_defined`, tested.
    pub fn can_execute(&self, byte: u8) -> (r: bool)
        ensures
            r == self@.execute_defined(byte),
    {
        if byte == 10 {
            self.cursor_row <= usize::MAX - 2
        } else if byte == 9 {
            self.cols >= 1 && self.cursor_col / 8 < usize::MAX / 8
        } else {
            true
        }
    }

    /// `csi_defined`, tested.
    pub fn can_csi_dispatch(&self, params: &Vec<Vec<u16>>, c: char) -> (r: bool)
        ensures
            r == self@.csi_defined(params_view(params@), c),
    {
        let first_ok = params.len() == 0 || params[0].len() > 0;
        let second_ok = params.len() <= 1 || params[1].len() > 0;
        if !first_ok {
            return c != 'H' && c != 'f' && c != 'J' && c != 'K' && c != 'A' && c != 'D' && c != 'B'
                && c != 'C' && c != 'h' && c != 'l' && c != 'd' && c != 'G' && c != 'X'
                && (c != 'u' || self.can_move_cursor());
        }
        let n = param_value(params, 0, 1) as usize;
        let motion = if n == 0 { 1 } else { n };
        let row_limit = if self.is_alt_screen { self.rows } else { self.main_buffer.len() };
        if c == 'H' || c == 'f' {
            second_ok && self.can_move_cursor()
        } else if c == 'J' {
            let param = param_value(params, 0, 0);
            let one_ok = !(param == 1 && self.is_alt_screen) || self.cursor_col < usize::MAX;
            let zero_ok = !(param == 0 && !self.is_alt_screen) || self.cursor_row < usize::MAX;
            let two_ok = !(param == 2 || param == 3) || !self.is_alt_screen || (self.rows >= 1 && self.cols >= 1);
            one_ok && zero_ok && two_ok
        } else if c == 'K' {
            self.cursor_row < self.main_buffer.len()
        } else if c == 'B' {
            row_limit >= 1 && self.cursor_row <= usize::MAX - motion
        } else if c == 'C' {
            self.cols >= 1 && self.cursor_col <= usize::MAX - motion
        } else if c == 'd' {
            row_limit >= 1
        } else if c == 'G' {
            self.cols >= 1
        } else if c == 'X' {
            self.cursor_row >= self.main_buffer.len() || n == 0 || self.cursor_col <= usize::MAX - (n - 1)
        } else if c == 'u' {
            self.can_move_cursor()
        } else {
            true
        }
    }
}

/// Repaint requests from the shell's output: the first fifty are honoured at
/// once, later ones at most once per repaint interval.
pub struct RepaintThrottle {
    pub initial_repaints: u32,
}

/// Number of repaints that go through without throttling.
pub const INITIAL_UNTHROTTLED_REPAINTS: u32 = 50;

impl RepaintThrottle {
    pub fn new() -> (t: Self)
        ensures
            t.initial_repaints == 0,
    {
        RepaintThrottle { initial_repaints: 0 }
    }

    /// Decides a throttled repaint request, given whether the repaint interval
    /// has passed since the last repaint. Returns whether to repaint now (and
    /// restart the interval).
    pub fn request(&mut self, interval_elapsed: bool) -> (repaint: bool)
        ensures
            old(self).initial_repaints < INITIAL_UNTHROTTLED_REPAINTS ==> repaint
                && final(self).initial_repaints == old(self).initial_repaints + 1,
            old(self).initial_repaints >= INITIAL_UNTHROTTLED_REPAINTS ==> repaint == interval_elapsed
                && final(self).initial_repaints == old(self).initial_repaints,
    {
        if self.initial_repaints < INITIAL_UNTHROTTLED_REPAINTS {
            self.initial_repaints = self.initial_repaints + 1;
            return true;
        }
        interval_elapsed
    }
}

} // verus!
