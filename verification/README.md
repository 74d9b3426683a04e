# remotedesk

The core of a remote-desktop application, written in Verus: every function
under `src/` carries a contract that Verus proves.

- `src/` — the verified library: wire formats (UDP framing and
  fragmentation, STUN binding requests and responses, length-prefixed
  messages, file chunking), codec negotiation and frame compression, the
  session cipher and its key exchange, the relay server's registry, the
  session handshake and the host/client session state machines, key and
  button mapping, configuration defaults.  Calls into `zstd`, `sodiumoxide`,
  `rand` and `base64` go through small trusted wrappers whose contracts are
  stated next to them.
- `tests/` — tests of the library on concrete values.
- `app/` — the program around the library: sockets, files, the async
  session loops, serialisation with `serde`/`bincode`, configuration files
  with `toml`, and the relay server's `main`.  It hands plain values to the
  library and performs the actions the library decides.
