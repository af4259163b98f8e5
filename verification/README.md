# ice_commander

The decision logic of the Ice Commander two-panel file manager, written in
Verus and proved against its contracts: hotkeys and key routing, the
connection manager and its folder tree, shared folders and the resources a
node announces, the peer source list, drives, paste and transfer planning,
panel tabs and layout, the PDF viewer's zoom and page cache, the console front end's key handling, the help page's
markup, and start-up.

- `src/` — the verified library. Each module states its model with spec
  functions and views, and the cross-function properties as `law_*` proof
  functions. Calls into `chrono`, `hostname`, `uuid`, `serde_json` and a few
  std functions go through small `#[verifier::external_body]` wrappers whose
  doc comments say what is trusted.
- `tests/` — ordinary Rust tests of the library on concrete values.
- `app/` — the program around it: configuration file, start-up sequence and a
  crossterm key loop.
