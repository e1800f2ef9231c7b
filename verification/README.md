# geode_td

The rules of GeodeTD, a Gem TD-style tower defense, as a verified Verus
library, with the multiplayer lobby server around it.

- `src/` holds the game's logic with its contracts: the board and its
  pathfinding (`grid`, `cells`, `path`, `search` with its step-by-step
  model in `astar`, `route`, `board`), gems,
  specials and recipes (`gem`, `special`, `recipe`, `tower`), the run and
  the field of towers (`game`, `field`, `play`, `menu`, `hud`), the lobby
  protocol and server state (`protocol`, `lobby`, `lobby_laws`,
  `shared_layout`) and the multiplayer client (`client`). Text helpers live
  in `text` and `textorder`; calls into the standard library and outside
  crates are declared in `external`.
- `app/` is the lobby server: HTTP and WebSocket handling with axum and the
  JSON message types. The Bevy game window (rendering, input, timers,
  enemy movement and tower attacks) is not part of this crate; the window
  calls the library for its rules. `app/describe.rs` and `app/display.rs`
  keep the window's floating-point helpers (effect descriptions, screen
  coordinates, the saved display name) beside the server, which does not
  call them.
- `tests/` exercises the library on concrete values.
