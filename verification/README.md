# postwoman

A small desktop API tester (Rust + egui), with the logic that decides what is sent
and what is shown written in Verus and proved.

- `src/` — the verified library:
  - `http.rs`: methods, key/value rows, request preparation (URL with query
    parameters, trimmed headers, body for methods that carry one) and response
    finishing (reason phrase, headers ordered by name, 50 MiB body cap, lossy UTF-8,
    pretty-printed JSON).
  - `history.rs`: URL history (most recent first, no repeats, at most 50) and
    suggestions while typing.
  - `rows.rs`: the key/value editor's deletion and trailing blank row.
  - `session.rs`: the request being edited and the state of the last request.
  - `format.rs`: byte sizes ("1.50 KB") and status labels.
  - `order.rs`: the stable ordering of headers by name.
  - `text.rs`: white space, trimming, substring search, string order.
  - `theme.rs`, `persist.rs`: themes, badge colours, the saved state.
- `app/` — the egui window, the HTTP worker thread and the JSON state file.
- `tests/` — tests run against the compiled library.
