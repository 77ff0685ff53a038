# qmk-state-daemon

A daemon that reads raw-HID state packets pushed by a QMK/Vial keyboard,
writes the decoded state to a JSON file, and notifies a sink (sketchybar,
a command, D-Bus, or nothing) when the observable state changes. It also
serves a small line-based JSON RPC on a Unix socket for reading and writing
Vial QMK-Settings (QSIDs).

Layout:

- `src/` — the library, verified with Verus: packet decoding and dispatch,
  the modifier/layer model, QSID request building and response parsing, the
  QSID listing loop, configuration resolution, sink selection and template
  expansion, and the read loop's decisions (backoff, dedup, stop).
- `app/` — the binary: command-line parsing, file and socket I/O, the HID
  device, threads, and the serde/TOML wire formats.
- `tests/` — tests of the library, run against the compiled crate.
