# paste_bridge

A clipboard history manager: a history store with de-duplication by
fingerprint, search, favorite folders and settings; an HTTP API through
which other devices read the history and push text; discovery of other
devices over mDNS and syncing with them; and the desktop shell's decisions
on focus, dragging text out, watching the clipboard, placing the window and
its lists.

- `src/` is the library, verified with Verus: `shared` (the store, state,
  API, discovery, sync, device identifier, memory figures), `desktop` (the
  desktop shell's decisions), `standalone` (the single-window application
  with images kept as files), and `text` (character utilities).
- `app/` is a headless host around the library: SQLite persistence, the
  HTTP server, mDNS, the system clipboard and the network requests of a
  sync.
- `tests/` exercises the library.
