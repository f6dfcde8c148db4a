# ua_client

An OPC UA browser: connect to a server, walk its address space, read node
attributes and references, call methods and keep a log. The decisions of the
browser live in a library verified with Verus; a terminal front end drives it.

## Layout

- `src/` — the verified library.
  - `model.rs`, `engine.rs`: the application state and the engine that turns
    user actions and client replies into a new state and a list of effects.
  - `browse.rs`, `connection.rs`, `summary.rs`, `endpoints.rs`: the rules of
    browsing, connecting, reading a node summary and choosing an endpoint.
  - `parse.rs`, `node_id.rs`, `render.rs`, `text.rs`: parsing user input into
    values, node ids and their text, rendering value trees.
  - `tui_view.rs`, `tui_state.rs`, `dialogs.rs`, `widgets.rs`, `gui_view.rs`:
    what the front ends show and when they enable, rebuild or quit.
  - `laws.rs`: properties that span several operations, stated and proved.
  - `collections.rs`, `types.rs`, `logging.rs`: shared data types.
- `tests/` — tests of the library on concrete values.
- `app/` — the program: command line, the OPC UA client session, the terminal
  interface, settings on disk and logging. It hands the library plain values
  and performs the effects the engine asks for.

Verify with `verus` on `src/lib.rs`; the outside crates are listed in
`Cargo.toml`.
