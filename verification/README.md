# tengine_http

Hosting of Unity (YooAsset) hot-update bundles, in two parts that share one
verified library:

- a remote server, where projects have project versions, each with
  per-platform access switches and an active bundle version, served under
  `/res/{project version}/{project}/{platform}/{file}`;
- a desktop client that serves a Unity build output locally, synchronises the
  newest (or a chosen) bundle version into each platform directory, and
  uploads bundle versions to a remote server.

## Layout

- `src/` — the library, verified with Verus. `remote/` holds the server's
  configuration model and its operations, authentication, the storage layout,
  upload sessions and resource routing, with the laws that tie them together
  in `remote/laws.rs`; `local/` holds the client's configuration, bundle
  synchronisation, local file server decisions and command logic. `text`,
  `paths`, `order`, `lookup`, `digest` and `ids` are shared helpers.
- `app/` — the programs around the library: the HTTP server (`main.rs`,
  `api.rs`, `serve.rs`), the desktop client's commands and file server
  (`desktop.rs`), and the JSON forms of the library's records (`wire.rs`).
- `tests/` — tests of the library.
