# dmux

A terminal multiplexer in the style of tmux: sessions, windows, panes,
layouts, copy mode, floating panes, mouse support and a tmux-like command
language, served over a Unix socket.

## Layout

- `src/` is the verified library (Verus). It holds the server's state model
  and layout trees (`state`, `layout`), the command language (`command`,
  `compat`), request handling as a state machine that names the runtime's
  work as effects (`dispatch`, `effects`), the terminal emulator that
  replays pane output (`terminal`), and the client's decisions and frame
  composition (`ui`, `client`, `bars`, `copy`, `screen`, `frame`,
  `display`). The files `laws.rs`, `client_laws.rs` and `invariants.rs`, and the
  `law_` proof functions in other files, state what holds across calls.
- `app/` is the program around it: argument parsing, the socket server with
  its pseudo-terminals and shells, persistence as JSON, the client side of
  the socket, and the terminal interface that draws the library's frames.
- `tests/` runs the library on concrete inputs.
