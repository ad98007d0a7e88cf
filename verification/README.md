# aurelia

The shared core of the Aurelia music client (Jellyfin and Navidrome), as a
library whose behaviour is stated in contracts and proved with Verus.

- `src/` is the verified library: the item and response parsers of both
  servers (over a JSON value model of its own), the library store and its
  sync (delta computation, apply, incremental and resumable full sync), the
  home and library view data, URL and query building, Last.fm request
  signing, profile storage keys, the Discord presence state machine, the
  API definition reader and its TypeScript output, and the laws that tie
  these together (for instance, that a sync leaves the local ids equal to
  the server's, and that a saved setting reads back as saved).
- `tests/` runs the library on concrete values.
- `app/` is the unverified shell: HTTP clients, on-disk persistence,
  Discord IPC, the Last.fm secret file, and the serializable copies of the
  library's types.
