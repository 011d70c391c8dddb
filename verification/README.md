# rmsg

Serverless peer-to-peer encrypted chat. Peers in a room exchange X25519
public keys, derive a room key with HKDF-SHA256 (bound to the room id), and
send AES-256-GCM sealed messages whose associated data is `room:seq`.
A ciphertext that has been opened and shown once is never shown again,
whatever id it arrives under. Envelopes are flooded through a gossip mesh
with a hop limit; peers pass each other the addresses they know.

The terminal interface opens on a menu: `1` creates a room, `2` joins a
typed room id, `3` dials a typed relay or peer multiaddr, `4` (or Enter)
opens the selected room; `j`/`k` move, `q` quits. `rmsg relay --listen
<multiaddr>` runs a relay node, and `--relay <multiaddr>` reaches peers
through one.

## Layout

- `src/` — the verified library (Verus):
  - `crypto.rs` — identities, key agreement, sealing and opening messages;
  - `session.rs` — one user's conversation in a room: handshake, taking
    chat messages and history chunks, sending; laws on delivery,
    de-duplication, replays and consistency;
  - `p2p.rs` — the mesh peer's decisions: envelopes, rooms, addresses,
    relay reservations; laws on single delivery, bounded relaying and
    announcing each peer and address once;
  - `tui.rs`, `gui.rs` — the state machines of the terminal and graphical
    interfaces;
  - `cli.rs`, `display.rs`, `digits.rs`, `protocol.rs`, `storage.rs` —
    commands, time display, decimal rendering, message and record types;
  - `encoding.rs`, `entropy.rs` — base64, UTF-8, randomness and the clock.
- `app/` — the program around it: SQLite storage, the libp2p node, the
  terminal front end, JSON (de)serialisation and the command line.
- `tests/` — tests of the library.
