# tfs_rust

The verified core of a game server for the classic Tibia protocol: wire
messages, login and game packets, the map and its files, houses, and the
world's records, written in Verus with their behaviour stated in contracts.

## Layout

- `src/util` — checksums, dates, text helpers, the name completion trie,
  the XML node model and the clock and random draws.
- `src/net` — message buffers, connection decisions (framing, rate limit,
  checksum, service choice), login and game login, client requests and the
  packets the server writes.
- `src/map` — positions, tiles, the game map and spectator search, path
  finding, item attributes and stored items, map files (OTBM trees),
  houses, access lists and rent.
- `src/world` — groups, guilds, parties, quests, raids, spawns, outfits,
  mounts, where an added item goes in a player's inventory, and the
  integer side of vocations.
- `tests/` — tests run against the compiled library.
- `app/` — file reading, data file formats (JSON5, XML through serde), the
  listening sockets and each connection's reading loop, the task runtime,
  and the vocation formulas that use floating point.

Verify with Verus on `src/lib.rs`; the outside crates used are `byteorder`,
`rand`, `roxmltree` and `anyhow` in the library, and the data format crates
in `app/`.
