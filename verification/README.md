# asconvert

A terminal converter between text and ASCII codes: text to decimal or
hexadecimal byte codes, and codes back to text, with an ASCII reference table.

- `src/` is the library, verified with Verus:
  - `codes.rs` writes the UTF-8 bytes of a text as decimal or hex codes and
    reads codes back, with the round-trip lemmas;
  - `app.rs` holds the converter's state, every key press as a step from state
    to state, and what the input and output boxes show;
  - `ascii.rs` builds the reference table and its rows, `layout.rs` places the
    popups, `mode.rs` and `palette.rs` hold the modes, separators and colours;
  - `laws.rs` states the properties of the whole: round trips, agreement of
    output and input after every step, the cycles of modes and separators.
- `app/main.rs` is the terminal program (crossterm and ratatui) that draws the
  state and feeds key presses to the library.
- `tests/` runs the library on concrete values and against the standard
  library's own parsing and white-space tests.
