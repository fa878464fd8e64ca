# tribalcraft

The game logic of Tribalcraft, a multiplayer browser game, as a Verus
library with proved contracts.

- `src/server/` — the game server: packets, players, the world state
  (`state.rs`: joining, looking players up, choosing the recipients of each
  packet, the game-loop step), the per-message decision of a connection
  (`conn.rs`) and the configuration types.
- `src/client/` — the client's view of the world (`game.rs`: announced
  players, position updates and the reply to them), movement keys
  (`input.rs`), and the client's packet and player types.
- `src/relay.rs` — the small stand-alone relay server.
- `src/serial.rs` — saturating serial-number generators.
- `src/trusted.rs` — the outside items the logic calls (`dashmap`,
  `quadtree-f32`, `rand`) with the contracts they are trusted to meet.
- `app/` — the programs around the library: sockets, packet encoding with
  `bincode`, configuration files, physics and rendering, which work with
  floating point.

Floats travel through the library as their `u32` bit patterns; the library
never computes with them.
