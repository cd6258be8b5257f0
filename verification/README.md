# collaborate

The verified core of a collaborative drawing board with vim-style keys:
browser clients draw on a canvas and sync through a websocket with a
SpacetimeDB database that keeps rooms, elements, cursors and a per-user undo
log. The database's tables and reducers are modelled here as plain in-memory
tables with the same rules; registering them as a SpacetimeDB module is not
part of this crate.

`src/` is the library, checked by Verus:

- `types`, `tables`, `reducers`, `undo_laws` — the server's tables held in
  memory and its reducers (rooms, cursors, elements, undo and redo), with the
  table invariant and the laws of the undo log;
- `vim`, `tools`, `commands` — the modal key handler, the drawing interaction
  and the command line;
- `store` — the client's copy of the subscribed tables and how server rows
  update it;
- `point`, `decode`, `bsatn`, `reducer_args`, `compression`, `connection` —
  the wire formats: compact point lists, element and cursor rows, reducer
  arguments, compressed server messages and the protocol's framing;
- `color`, `markup`, `text`, `offline`, `status` — colour texts, SVG
  escaping, string helpers, the service worker's cache rule and what the
  status bars show.

`app/` is the browser application around it (Leptos components, canvas
rendering and export, floating-point geometry, the websocket loop), and
`tests/` runs the library on concrete values.
