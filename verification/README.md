# arod

The decision logic of the ARO Android service host, verified with Verus:
the binder services' replies, the media store and its query language, the
calendar store and its content provider, the settings tables, intent
resolution and the task stack, the notification shade, the composer's
layers and vsync events, graphics buffer geometry, and the clocks of the
media player and recorder.

- `src/` — the verified library. Each service's reply to a transaction is
  a spec function over the transaction's name; stores carry invariants
  (fresh ids, unique keys) that every operation keeps; the laws of the
  library are public proof functions named `law_*`.
- `tests/` — the library run on concrete values.
- `app/` — the host side: JSON persistence, clocks and local time, the
  desktop clipboard and file picker, the media indexer's walk over the disk,
  and the shade's Unix socket.

Not here: the binder transport (the parcel reading and writing of every
service, which needs the `rsbinder` crate and parcel helpers this project's
sources do not include), the WebView update service and the shared-memory
feature table (whose sources are missing), and the namespace setup of a
session (`nix`).
