use vstd::prelude::*;
use std::time::Instant;
use crate::ime::korean::{KoreanInputState, option_seq};
use crate::terminal::render::row_text_end;
use crate::terminal::state::{TerminalCell, TerminalModel, TerminalState, text_end};
use crate::utils::width::{cell_width, cell_width_of};

verus! {

/// Whether `row` holds a prompt marker at column `i`: `~` or `✗` followed by a space.
pub open spec fn prompt_marker_at(row: Seq<TerminalCell>, i: int) -> bool {
    0 <= i && i + 1 < row.len() && (row[i].ch == '~' || row[i].ch == '✗') && row[i + 1].ch == ' '
}

/// Column just after the first prompt marker at or after column `i`, or 0.
pub open spec fn prompt_end_from(row: Seq<TerminalCell>, i: int) -> int
    decreases row.len() - i,
{
    if i < 0 || i + 1 >= row.len() {
        0
    } else if prompt_marker_at(row, i) {
        i + 2
    } else {
        prompt_end_from(row, i + 1)
    }
}

/// Where the user's input starts on a line: after the shell prompt's marker.
pub open spec fn prompt_end(row: Seq<TerminalCell>) -> int {
    prompt_end_from(row, 0)
}

/// End of the text typed after the prompt, or 0 when there is none.
pub open spec fn input_text_end(row: Seq<TerminalCell>, start: int) -> int {
    if text_end(row) > start { text_end(row) as int } else { 0 }
}

/// Finds the end of the prompt on a line.
pub fn find_prompt_end(row: &Vec<TerminalCell>) -> (r: usize)
    ensures
        r == prompt_end(row@),
{
    if row.len() >= 2 {
        let mut i: usize = 0;
        while i < row.len() - 1
            invariant
                row.len() >= 2,
                i <= row.len() - 1,
                prompt_end(row@) == prompt_end_from(row@, i as int),
            decreases row.len() - i,
        {
            if (row[i].ch == '~' || row[i].ch == '✗') && row[i + 1].ch == ' ' {
                return i + 2;
            }
            i = i + 1;
        }
    }
    0
}

impl TerminalModel {
    /// The row the render cursor is on, where it exists.
    pub open spec fn render_cursor_line(self) -> Seq<TerminalCell> {
        self.render_buffer[self.render_cursor_row as int]
    }

    /// Right arrow handled on the screen: the cursor moves one column right
    /// while that stays within the typed text and the width. The flag tells
    /// whether the render cursor's row exists (without it nothing moves).
    pub open spec fn spec_arrow_right(self, t: Option<Instant>) -> (TerminalModel, bool) {
        let m = self.with_protection(t);
        if self.render_cursor_row < self.render_buffer.len() {
            let row = self.render_cursor_line();
            let target = self.cursor_col + 1;
            if target <= input_text_end(row, prompt_end(row)) && target < self.cols {
                (m.with_cursor(self.cursor_row, target as usize), true)
            } else {
                (m, true)
            }
        } else {
            (m, false)
        }
    }

    /// Left arrow handled on the screen: the cursor moves one column left
    /// unless it is at the end of the prompt.
    pub open spec fn spec_arrow_left(self, t: Option<Instant>) -> (TerminalModel, bool) {
        let m = self.with_protection(t);
        if self.render_cursor_row < self.render_buffer.len() {
            let row = self.render_cursor_line();
            if self.cursor_col > prompt_end(row) {
                (m.with_cursor(self.cursor_row, (self.cursor_col - 1) as usize), true)
            } else {
                (m, true)
            }
        } else {
            (m, false)
        }
    }

    /// The right arrow's column arithmetic does not overflow.
    pub open spec fn arrow_right_defined(self) -> bool {
        self.render_cursor_row < self.render_buffer.len() ==> self.cursor_col < usize::MAX
    }
}

impl TerminalState {
    /// Moves the cursor right on the screen itself, without the shell, and
    /// starts the arrow-key protection. Returns whether the render cursor's
    /// row exists.
    pub fn arrow_right(&mut self) -> (found: bool)
        requires
            old(self)@.arrow_right_defined(),
        ensures
            (final(self)@, found) == old(self)@.spec_arrow_right(final(self).arrow_key_time),
            final(self).arrow_key_time is Some,
    {
        self.set_arrow_key_protection();
        let current_col = self.cursor_col;
        if self.render_cursor_row >= self.render_buffer.len() {
            return false;
        }
        let r = self.render_cursor_row;
        let prompt = find_prompt_end(&self.render_buffer[r]);
        let te = row_text_end(&self.render_buffer[r]);
        let text_end_col = if te > prompt { te } else { 0 };
        let target = current_col + 1;
        if target <= text_end_col && target < self.cols {
            self.cursor_col = target;
        }
        true
    }

    /// Moves the cursor left on the screen itself, not into the prompt, and
    /// starts the arrow-key protection. Returns whether the render cursor's
    /// row exists.
    pub fn arrow_left(&mut self) -> (found: bool)
        ensures
            (final(self)@, found) == old(self)@.spec_arrow_left(final(self).arrow_key_time),
            final(self).arrow_key_time is Some,
    {
        self.set_arrow_key_protection();
        let current_col = self.cursor_col;
        if self.render_cursor_row >= self.render_buffer.len() {
            return false;
        }
        let prompt = find_prompt_end(&self.render_buffer[self.render_cursor_row]);
        if current_col > prompt {
            self.cursor_col = current_col - 1;
        }
        true
    }
}

/// A key press the terminal handles, as the window reports it.
pub enum KeyInput {
    Enter,
    Space,
    Backspace,
    ArrowUp,
    ArrowDown,
    ArrowLeft,
    ArrowRight,
    /// A letter key (`'A'..='Z'`) pressed with Ctrl.
    Ctrl(char),
    /// Any other key.
    Other,
}

/// What a key press asks of the window: the characters to send to the shell,
/// and whether to stop handling the remaining input events of this frame.
pub struct KeyResult {
    pub send: Vec<char>,
    pub stop: bool,
}


/// The control character Ctrl+`letter` sends: `letter - 64` for the letters,
/// except H, I and M, which have keys of their own (backspace, tab, enter).
pub open spec fn spec_control_char(letter: char) -> Option<char> {
    if 'A' <= letter <= 'Z' && letter != 'H' && letter != 'I' && letter != 'M' {
        Some(((letter as u32) - 64) as char)
    } else {
        None
    }
}

/// Ctrl+`letter` as a control character.
pub fn control_char(letter: char) -> (r: Option<char>)
    ensures
        r == spec_control_char(letter),
{
    if 'A' <= letter && letter <= 'Z' && letter != 'H' && letter != 'I' && letter != 'M' {
        let code = (letter as u32 - 64) as u8;
        let c = code as char;
        proof {
            assert(c as u32 == code as u32);
            vstd::utf8::char_u32_cast(c, c as u32);
        }
        Some(c)
    } else {
        None
    }
}

/// The key press can be handled without a panic.
pub open spec fn key_defined(k: KoreanInputState, m: TerminalModel, key: KeyInput) -> bool {
    (key is ArrowRight && !k.is_composing) ==> m.arrow_right_defined()
}

/// Effect of a key press on the composition and the screen, the characters
/// sent to the shell, and whether the frame's remaining events are dropped.
/// Keys that leave the line (enter, arrows) first end a composition; during
/// a composition backspace only takes back jamo; the horizontal arrows move
/// the cursor on the screen itself; Ctrl+L also clears the screen.
pub open spec fn spec_handle_key(
    k: KoreanInputState,
    m: TerminalModel,
    key: KeyInput,
    t: Option<Instant>,
) -> (KoreanInputState, TerminalModel, Seq<char>, bool) {
    let (kf, done) = k.spec_finalize();
    match key {
        KeyInput::Enter => (kf, m.without_protection(), option_seq(done).push('\n'), false),
        KeyInput::Space => (k, m, Seq::empty(), false),
        KeyInput::Backspace => if k.is_composing {
            (k.spec_backspace().0, m, Seq::empty(), false)
        } else {
            (k, m.without_protection(), seq!['\u{8}'], false)
        },
        KeyInput::ArrowUp => if k.is_composing {
            (kf, m, option_seq(done), false)
        } else {
            (k, m, seq!['\u{1b}', '[', 'A'], false)
        },
        KeyInput::ArrowDown => if k.is_composing {
            (kf, m, option_seq(done), false)
        } else {
            (k, m, seq!['\u{1b}', '[', 'B'], false)
        },
        KeyInput::ArrowRight => if k.is_composing {
            (kf, m, option_seq(done), false)
        } else {
            (k, m.spec_arrow_right(t).0, Seq::empty(), false)
        },
        KeyInput::ArrowLeft => if k.is_composing {
            (kf, m, option_seq(done), false)
        } else {
            (k, m.spec_arrow_left(t).0, Seq::empty(), !m.spec_arrow_left(t).1)
        },
        KeyInput::Ctrl(c) => if c == 'L' {
            (k, m.without_protection().spec_clear_screen(), seq!['\u{c}'], false)
        } else {
            (k, m, option_seq(spec_control_char(c)), false)
        },
        KeyInput::Other => (k, m, Seq::empty(), false),
    }
}

/// Ctrl with a letter sends the control character whose code is the
/// letter's code less 64 (Ctrl+A is 1, Ctrl+D is 4, Ctrl+Z is 26), and only
/// that; H, I and M, which have keys of their own, and anything that is not a
/// capital letter send nothing. The composition is left alone.
pub proof fn lemma_ctrl_sends_control_code(k: KoreanInputState, m: TerminalModel, letter: char, t: Option<Instant>)
    ensures
        ({
            let (k2, _m2, send, stop) = spec_handle_key(k, m, KeyInput::Ctrl(letter), t);
            &&& k2 == k
            &&& !stop
            &&& (0x41 <= (letter as u32) <= 0x5A && letter != 'H' && letter != 'I' && letter != 'M') ==> {
                &&& send.len() == 1
                &&& send[0] as u32 == (letter as u32) - 64
            }
            &&& !(0x41 <= (letter as u32) <= 0x5A && letter != 'H' && letter != 'I' && letter != 'M')
                ==> send.len() == 0
        }),
        spec_control_char(letter) is Some <==> (0x41 <= (letter as u32) <= 0x5A && letter != 'H' && letter != 'I'
            && letter != 'M'),
        spec_control_char(letter) matches Some(c) ==> c as u32 == (letter as u32) - 64,
{
    if 'A' <= letter <= 'Z' && letter != 'H' && letter != 'I' && letter != 'M' && letter != 'L' {
        let c = (((letter as u32) - 64) as char);
        assert(spec_control_char(letter) == Some(c));
        assert((c as u32) == (letter as u32) - 64);
    }
}

/// Outside a composition the keys send their terminal codes: Enter a line
/// feed (10), Backspace a backspace (8), the up and down arrows ESC [ A and
/// ESC [ B (27, 91, 65 and 27, 91, 66); Space, the side arrows and other keys
/// send nothing of their own. Within a composition, Enter sends the composed
/// syllable before the line feed, and Backspace sends nothing.
pub proof fn lemma_key_codes(k: KoreanInputState, m: TerminalModel, t: Option<Instant>)
    ensures
        !k.is_composing ==> {
            &&& spec_handle_key(k, m, KeyInput::Enter, t).2 == seq![10u32 as char]
            &&& spec_handle_key(k, m, KeyInput::Backspace, t).2 == seq![8u32 as char]
            &&& spec_handle_key(k, m, KeyInput::ArrowUp, t).2 == seq![27u32 as char, 91u32 as char, 65u32 as char]
            &&& spec_handle_key(k, m, KeyInput::ArrowDown, t).2 == seq![27u32 as char, 91u32 as char, 66u32 as char]
            &&& spec_handle_key(k, m, KeyInput::Space, t).2.len() == 0
            &&& spec_handle_key(k, m, KeyInput::ArrowLeft, t).2.len() == 0
            &&& spec_handle_key(k, m, KeyInput::ArrowRight, t).2.len() == 0
            &&& spec_handle_key(k, m, KeyInput::Other, t).2.len() == 0
        },
        k.is_composing ==> {
            &&& spec_handle_key(k, m, KeyInput::Enter, t).2 == option_seq(k.spec_current_char()).push(10u32 as char)
            &&& spec_handle_key(k, m, KeyInput::Enter, t).0 == KoreanInputState::empty()
            &&& spec_handle_key(k, m, KeyInput::Backspace, t).2.len() == 0
        },
{
    assert(seq!['\n'] =~= seq![10u32 as char]);
    assert(Seq::<char>::empty().push('\n') =~= seq!['\n']);
    assert(seq!['\u{8}'] =~= seq![8u32 as char]);
    assert(seq!['\u{1b}', '[', 'A'] =~= seq![27u32 as char, 91u32 as char, 65u32 as char]);
    assert(seq!['\u{1b}', '[', 'B'] =~= seq![27u32 as char, 91u32 as char, 66u32 as char]);
}

/// Handles a key press of the focused terminal.
pub fn handle_key_press(korean: &mut KoreanInputState, state: &mut TerminalState, key: KeyInput) -> (r: KeyResult)
    requires
        key_defined(*old(korean), old(state)@, key),
    ensures
        (*final(korean), final(state)@, r.send@, r.stop) == spec_handle_key(
            *old(korean),
            old(state)@,
            key,
            final(state).arrow_key_time,
        ),
        ((key is ArrowRight || key is ArrowLeft) && !old(korean).is_composing) ==> final(state).arrow_key_pressed
            && final(state).arrow_key_time is Some,
{
    let mut send: Vec<char> = Vec::new();
    let mut stop = false;
    match key {
        KeyInput::Enter => {
            if let Some(c) = korean.finalize_korean_composition() {
                send.push(c);
            }
            state.clear_arrow_key_protection();
            send.push('\n');
        },
        KeyInput::Space => {},
        KeyInput::Backspace => {
            if korean.is_composing {
                let _still_composing = korean.handle_backspace();
            } else {
                state.clear_arrow_key_protection();
                send.push('\u{8}');
            }
        },
        KeyInput::ArrowUp => {
            if korean.is_composing {
                if let Some(c) = korean.finalize_korean_composition() {
                    send.push(c);
                }
            } else {
                send.push('\u{1b}');
                send.push('[');
                send.push('A');
            }
        },
        KeyInput::ArrowDown => {
            if korean.is_composing {
                if let Some(c) = korean.finalize_korean_composition() {
                    send.push(c);
                }
            } else {
                send.push('\u{1b}');
                send.push('[');
                send.push('B');
            }
        },
        KeyInput::ArrowRight => {
            if korean.is_composing {
                if let Some(c) = korean.finalize_korean_composition() {
                    send.push(c);
                }
            } else {
                let _found = state.arrow_right();
            }
        },
        KeyInput::ArrowLeft => {
            if korean.is_composing {
                if let Some(c) = korean.finalize_korean_composition() {
                    send.push(c);
                }
            } else {
                let found = state.arrow_left();
                stop = !found;
            }
        },
        KeyInput::Ctrl(c) => {
            if c == 'L' {
                state.clear_arrow_key_protection();
                state.clear_screen();
                send.push('\u{c}');
            } else if let Some(b) = control_char(c) {
                send.push(b);
            }
        },
        KeyInput::Other => {},
    }
    assert(send@ =~= spec_handle_key(*old(korean), old(state)@, key, final(state).arrow_key_time).2);
    KeyResult { send, stop }
}

/// Escape ends a composition without sending anything else; otherwise it is
/// sent on. Returns the characters to send.
pub fn handle_escape(korean: &mut KoreanInputState) -> (send: Vec<char>)
    ensures
        old(korean).is_composing ==> *final(korean) == old(korean).spec_finalize().0
            && send@ == option_seq(old(korean).spec_finalize().1),
        !old(korean).is_composing ==> *final(korean) == *old(korean) && send@ == seq!['\u{1b}'],
{
    let mut send: Vec<char> = Vec::new();
    if korean.is_composing {
        if let Some(c) = korean.finalize_korean_composition() {
            send.push(c);
        }
    } else {
        send.push('\u{1b}');
    }
    assert(send@ =~= (if old(korean).is_composing { option_seq(old(korean).spec_finalize().1) } else { seq!['\u{1b}'] }));
    send
}

/// Tab presses closer than this many milliseconds are dropped.
pub const TAB_DEBOUNCE_MILLIS: u128 = 100;

/// Whether a tab goes through, given the time since the last one sent.
pub fn tab_debounce_allows(millis_since_last_tab: Option<u128>) -> (r: bool)
    ensures
        r == match millis_since_last_tab {
            Some(ms) => ms > TAB_DEBOUNCE_MILLIS,
            None => true,
        },
{
    match millis_since_last_tab {
        Some(ms) => ms > TAB_DEBOUNCE_MILLIS,
        None => true,
    }
}

/// A tab (or Ctrl+I) that passed the debounce: ends a composition and sends
/// the tab. Returns the characters to send.
pub fn handle_tab(korean: &mut KoreanInputState) -> (send: Vec<char>)
    ensures
        *final(korean) == old(korean).spec_finalize().0,
        send@ == option_seq(old(korean).spec_finalize().1).push('\t'),
{
    let mut send: Vec<char> = Vec::new();
    if let Some(c) = korean.finalize_korean_composition() {
        send.push(c);
    }
    send.push('\t');
    assert(send@ =~= option_seq(old(korean).spec_finalize().1).push('\t'));
    send
}

/// Whether a tab press goes through: the first tab always does, a later one
/// when more than `TAB_DEBOUNCE_MILLIS` passed since the last tab sent.
pub open spec fn spec_tab_allowed(last_tab_time: Option<Instant>, millis_since_last_tab: Option<u128>) -> bool {
    last_tab_time is None || (millis_since_last_tab matches Some(ms) && ms > TAB_DEBOUNCE_MILLIS)
}

/// A tab goes through when none was sent before or more than 100 ms have
/// passed since the last one; when the clock gives no reading it is dropped.
pub proof fn lemma_tab_debounce_window(last_tab_time: Option<Instant>, ms: u128)
    ensures
        spec_tab_allowed(last_tab_time, Some(ms)) <==> last_tab_time is None || ms > 100,
        spec_tab_allowed(last_tab_time, None) <==> last_tab_time is None,
{
}

/// A tab press (or Ctrl+I) at the instant `now`, `millis_since_last_tab`
/// being the clock's reading of the time since `last_tab_time`. When the
/// debounce lets it through, the composition ends, the tab is sent and `now`
/// becomes the last tab's time; otherwise nothing changes and nothing is sent.
pub fn handle_tab_press(
    korean: &mut KoreanInputState,
    last_tab_time: &mut Option<Instant>,
    now: Instant,
    millis_since_last_tab: Option<u128>,
) -> (send: Vec<char>)
    ensures
        spec_tab_allowed(*old(last_tab_time), millis_since_last_tab) ==> {
            &&& *final(korean) == old(korean).spec_finalize().0
            &&& send@ == option_seq(old(korean).spec_finalize().1).push('\t')
            &&& *final(last_tab_time) == Some(now)
        },
        !spec_tab_allowed(*old(last_tab_time), millis_since_last_tab) ==> {
            &&& *final(korean) == *old(korean)
            &&& send@ == Seq::<char>::empty()
            &&& *final(last_tab_time) == *old(last_tab_time)
        },
{
    let allowed = match last_tab_time {
        None => true,
        Some(_) => match millis_since_last_tab {
            Some(_) => tab_debounce_allows(millis_since_last_tab),
            None => false,
        },
    };
    if allowed {
        let send = handle_tab(korean);
        *last_tab_time = Some(now);
        send
    } else {
        Vec::new()
    }
}

/// Text events that carry a tab or a line break are already handled as keys;
/// such an event, and the frame's events after it, are dropped.
pub open spec fn spec_text_event_accepted(text: Seq<char>) -> bool {
    forall|i: int| 0 <= i < text.len() ==> text[i] != '\t' && text[i] != '\n' && text[i] != '\r'
}

pub fn text_event_accepted(text: &Vec<char>) -> (r: bool)
    ensures
        r == spec_text_event_accepted(text@),
{
    let mut i: usize = 0;
    while i < text.len()
        invariant
            i <= text.len(),
            forall|k: int| 0 <= k < i ==> text@[k] != '\t' && text@[k] != '\n' && text@[k] != '\r',
        decreases text.len() - i,
    {
        let ch = text[i];
        if ch == '\t' || ch == '\n' || ch == '\r' {
            return false;
        }
        i = i + 1;
    }
    true
}

impl TerminalModel {
    /// Effect of fitting the terminal to a new window size: nothing when the
    /// size is unchanged; otherwise a resize, and in the alternative screen a
    /// cleared screen for the application to redraw.
    pub open spec fn spec_resize_terminal(self, new_rows: usize, new_cols: usize) -> (TerminalModel, bool) {
        if new_rows == self.rows && new_cols == self.cols {
            (self, false)
        } else if self.is_alt_screen {
            (self.spec_resize(new_rows, new_cols).spec_clear_screen(), true)
        } else {
            (self.spec_resize(new_rows, new_cols), true)
        }
    }
}

impl TerminalState {
    /// Fits the terminal to a new window size; returns whether the size
    /// changed (and so the shell must be told).
    pub fn resize_terminal(&mut self, new_rows: usize, new_cols: usize) -> (changed: bool)
        ensures
            (final(self)@, changed) == old(self)@.spec_resize_terminal(new_rows, new_cols),
    {
        if new_rows == self.rows && new_cols == self.cols {
            return false;
        }
        let is_alt = self.is_alt_screen;
        self.resize(new_rows, new_cols);
        if is_alt {
            self.clear_screen();
        }
        true
    }
}

/// Display columns of the first `n` cells of `row`: continuation cells take
/// none, double-width characters two, all others one.
pub open spec fn display_columns(row: Seq<TerminalCell>, n: int) -> int
    decreases n,
{
    if n <= 0 {
        0
    } else {
        display_columns(row, n - 1) + if row[n - 1].ch == '\0' {
            0int
        } else if cell_width(row[n - 1].ch) == 2 {
            2int
        } else {
            1int
        }
    }
}

proof fn lemma_display_columns_bound(row: Seq<TerminalCell>, n: int)
    ensures
        0 <= display_columns(row, n) <= 2 * (if n < 0 { 0 } else { n }),
    decreases n,
{
    if n > 0 {
        lemma_display_columns_bound(row, n - 1);
    }
}

impl TerminalModel {
    /// Columns before the cursor on its row, where a composing syllable is
    /// previewed (0 when the row does not exist).
    pub open spec fn spec_preview_columns(self) -> int {
        if self.cursor_row < self.main_buffer.len() {
            let row = self.main_buffer[self.cursor_row as int];
            display_columns(row, if self.cursor_col < row.len() { self.cursor_col as int } else { row.len() as int })
        } else {
            0
        }
    }
}

impl TerminalState {
    /// Display columns before the cursor on its row, counted cell by cell.
    pub fn composing_preview_columns(&self) -> (n: usize)
        requires
            self.cursor_row < self.main_buffer.len() ==> 2 * self.main_buffer@[self.cursor_row as int].len() <= usize::MAX,
        ensures
            n == self@.spec_preview_columns(),
    {
        if self.cursor_row >= self.main_buffer.len() {
            return 0;
        }
        let row = &self.main_buffer[self.cursor_row];
        let limit = if self.cursor_col < row.len() { self.cursor_col } else { row.len() };
        let mut total: usize = 0;
        let mut k: usize = 0;
        while k < limit
            invariant
                k <= limit,
                limit <= row.len(),
                2 * row.len() <= usize::MAX,
                total == display_columns(row@, k as int),
            decreases limit - k,
        {
            proof {
                lemma_display_columns_bound(row@, k as int);
            }
            let cell = row[k];
            if cell.ch != '\0' {
                if cell_width_of(cell.ch) == 2 {
                    total = total + 2;
                } else {
                    total = total + 1;
                }
            }
            k = k + 1;
        }
        total
    }
}

} // verus!
