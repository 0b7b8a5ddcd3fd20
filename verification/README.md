# lazypost

A keyboard-driven terminal HTTP client: a sidebar of saved requests, a
request editor and a response pane, laid out like `lazygit`.

The logic is a Verus-verified library (`src/`); the terminal program around
it (`app/`) reads keys, draws with ratatui, reads and writes the files, and
sends requests with reqwest.

## Layout

- `src/text.rs`, `strmap.rs`, `placeholder.rs`, `env.rs` — text helpers, an
  insertion-ordered string map, `{{var}}` placeholders.
- `src/items.rs`, `json.rs`, `tree.rs` — the request tree and its edits.
- `src/http.rs`, `oauth.rs` — turning a request and the variables into what
  is sent, and reading what comes back; the session's OAuth2 token cache.
- `src/clock.rs`, `config.rs` — clock readings, the files' contents and where
  the environment file lives.
- `src/capture.rs`, `highlight.rs` — capture templates, JSON colouring.
- `src/widgets.rs`, `editor.rs`, `editor_io.rs`, `sidebar.rs`, `panes.rs`,
  `modals.rs`, `env_editor.rs`, `history.rs` — the screen's parts as state
  machines over key presses.
- `src/app_state.rs` — the whole screen: where a key goes and what the
  program is then to do (write a file, send the request).
- `src/reopen.rs` — opening a request in the editor and reading it back.
- `app/` — `main`, drawing, files, networking.

## Files on disk

| File                      | Location                | Contents                        |
|---------------------------|-------------------------|---------------------------------|
| `lazypost-workspace.json` | current directory       | the request tree                |
| `env.json`                | `~/lazypost/env/{cwd}/` | environment variables           |
| `history.json`            | current directory       | the last 500 requests sent      |
