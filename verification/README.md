# rvim

A small modal text editor in the style of vi, with tabs, shared buffers, a command
palette and syntax highlighting. The editor's logic is a Verus library whose
behaviour is stated in contracts and proved; a thin terminal front end drives it.

## Layout

- `src/` — the verified library.
  - `text.rs`: the line model of a text (where lines start and end, as the rope
    that stores a buffer counts them).
  - `rope.rs`, `highlight.rs`: the calls into `ropey` and `syntect`, each with the
    contract the rest of the library relies on.
  - `model.rs`: the mathematical view of the editor state (buffers, tabs) and the
    operations on it as spec functions.
  - `editor.rs`: buffers, tabs and the editor state, tab and buffer management.
  - `ops.rs`: the editing operations on a buffer, with crash isolation.
  - `keys.rs`, `cmdline.rs`, `command.rs`: normal, insert, visual and command mode.
    Commands that need a file read or written hand back a request; the caller
    performs it and reports the outcome.
  - `render.rs`, `screen.rs`: wrapping, scrolling, the status line, the tab bar,
    the palette, and the rows of text the screen shows.
  - `commands.rs`, `listing.rs`, `help.rs`, `strutil.rs`: the command table, the
    buffer list, the help text and string helpers.
  - `laws.rs`: properties that span several operations.
- `app/` — the terminal front end (crossterm): the event loop, file I/O and painting.
- `tests/` — tests of the library on concrete inputs.
