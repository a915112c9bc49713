# sqlake_tui

The terminal half of sqlake, a client for looking around databases: what its
screen shows, and what a key or a gesture on it means. Everything it decides is
written in Verus, with contracts that say exactly what comes back.

- `src/` is the library. It holds the state of a screen (`ui`, with its model in
  `state`), what input means (`input`, `keymap`, `intent`, `mouse`, `hit`), how
  values become cells and documents (`grid`, `detail`, `history`, `definition`,
  `copy`), what a frame is made of (`chrome`, `tree`, `datagrid`, `overlay`,
  `menu`, `palette`, `sql`, `screen`), and what a session does with an event, a
  snapshot or an intent (`run`). What holds of every screen is in `invariants`,
  that a dialog is all there is to reach while it is up is in `layers`, and that
  copied lines read back as what was copied is in `csv`.
- `tests/` runs it, with the crates it calls linked in.
- `app/` is the part that touches something: the terminal, the clock, the file an
  editor is given, and the loop that waits.

A frame is painted on a `paint::Canvas`, which records in the same breath what a
click on it would find. `app/paint.rs` puts a canvas on a terminal.

What the library takes on trust is small and named where it stands: the width of
a string from `unicode-width`, the division of a screen from `ratatui`, the
tokens of a JSON document from `serde_json`, dates and times from `time`, base64 from `base64`, and
a few functions of the standard library.
