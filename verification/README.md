# burrito

A whiteboard editor (nodes, groups, connections, drag, resize, pan, save and load), a small
immediate-mode interface toolkit and 2D plotting helpers. The decisions and data structures
are a library verified with Verus; drawing, windowing, files and floating-point geometry are
ordinary Rust around it.

## Layout

- `src/` — the verified library.
  - `board.rs`: the whiteboard's elements, drawing order and connections; adding, grouping,
    deleting, hit selection and the move walk over nested groups.
  - `editor.rs`: the editor's state machine. `update` and `Whiteboard::editor_update` take a
    message, change the board and return the `Effect` the caller must carry out.
  - `canvas.rs`: which message a press, a pointer move or a release on the canvas sends.
  - `gui.rs`: widget interaction state (hot, active and focused widgets, typed keys).
  - `text.rs`: line splitting and wrapping for text areas, decimal formatting.
  - `mesh.rs`, `path.rs`, `plot.rs`: index buffers, canvas paths and axis layout.
  - `demo.rs`: the description of the demo scene.
  - `laws.rs`: properties that relate several operations.
- `tests/` — tests of the library.
- `app/` — the program: windows, rendering, dialogs, JSON files and all floating-point
  geometry, driving the library.
