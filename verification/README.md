# insiculous_pong

The rules of Insiculous Pong — a neon Pong with chaos modes (Insane,
Ridiculous, Insiculous), power-ups and achievements — as a Verus-verified
library, plus the engine host that runs it.

- `src/` — the verified rules. The game state (`game::PongGame`) holds plain
  values; entity handles are `u64`. Each step (menus, serve, goal handling,
  win condition, pause) returns a list of `types::Command`s for the host to
  carry out, and its contract states the exact next state and commands over
  the spec functions of its module. `laws.rs`, `balls.rs` and
  `achievements.rs` hold the properties proved across steps.
- `app/` — the host on the insiculous_2d engine: window and input, physics,
  rendering, particles, and the float arithmetic of paddle and ball motion.
- `tests/` — scenario tests of the library.
