# deaddrop

A delay-tolerant store-carry-forward messaging node: signed, optionally encrypted
"Drops" cut into content-addressed chunks (with optional XOR or Reed–Solomon parity),
exchanged between peers over authenticated sessions, carried on removable media, and
routed by local policy.

## Layout

- `src/` — the library, written in Verus. Every function states its behaviour in
  `requires`/`ensures` and is proved. Calls into cryptography, compression and
  Reed–Solomon crates go through the small trusted wrappers in `src/primitives.rs`
  (plus `unix_now` and two string helpers); their contracts state what those crates
  document. Laws of the library (chunking round trips, erasure recovery, Bloom filters
  without false negatives, built Drops verifying and opening, handshake keys agreeing,
  and others) are `pub proof fn`s beside the code they are about.
- `tests/` — ordinary Rust tests of the library on concrete values.
- `app/` — the `dd` command-line node: argument handling, the SQLite store, TCP
  sessions, the control server, LAN discovery, file import and export, and the
  floating-point route scores, all calling the library for their decisions.
