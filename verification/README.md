# wterm

A terminal emulator for the desktop with Hangul (Korean) input composition.
The library in `src/` is verified with Verus; `app/` is the window, the
pseudo-terminal and the reader thread around it.

Layout of `src/`:

- `ime/korean.rs` — jamo tables, syllable composition (`compose_korean`) and
  the composition state machine (`KoreanInputState`), with its laws
  (well-formedness is preserved, backspace takes back the last jamo,
  syllables decompose back into their indices).
- `terminal/state.rs` — the screen model: the main buffer of logical lines,
  cursor, colours, the alternative screen, arrow-key protection.
- `terminal/render.rs` — wrapping the logical lines to the window width into
  the render buffer, and placing the render cursor; wrapping keeps a line's
  characters in order, and the render cursor lands on the cursor's cell.
- `terminal/performer.rs` — what the shell writes: control bytes, CSI
  sequences (cursor motion, erasing, SGR colours, modes), ESC save/restore,
  and the repaint throttle.
- `terminal/laws.rs` — properties that span several operations: among them,
  leaving the alternative screen gives the main screen back, and restoring the
  cursor gives the saved position back, whatever ran in between
  (`TerminalOp` names each operation, `apply_ops` runs a sequence of them).
- `session.rs` — key presses, text events, tab debounce and window resizes as
  the window reports them.
- `utils/color.rs` — the 256-colour palette; `utils/width.rs` — character
  display widths from `unicode-width`.

Functions whose inputs can make the arithmetic overflow or an index miss carry
a `requires`; each such function has a `can_*` test (or a `try_*`/`print`
variant) that the window calls first.
