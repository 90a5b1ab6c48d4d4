# cross_tetris

A deterministic Tetris engine with a four-well "cross" mode (four wells fed
by one shared 7-bag, one falling piece at a time, routed to a well chosen
before it spawns), and the board analysis behind a rule-based placement AI.
The library in `src/` is verified with Verus: every public function states
its result over mathematical models (row-major cell sequences, occupancy
grids, the bag's queue and generator state, whole-game models), and the
game's laws are proved as public `law_*` proof functions.

Layout:

- `src/board.rs`, `rows.rs`: the 10x40 board, line clears (`cleared_view`).
- `src/piece.rs`, `rotation.rs`: tetrominoes, SRS shapes and wall kicks.
- `src/rng.rs`, `bag.rs`: the seeded generator and the 7-bag randomizer.
- `src/motion.rs`, `scoring.rs`, `actions.rs`, `game.rs`: single-board
  real-time play (gravity, lock delay, drops, hold, scoring, top-out), with
  time in whole microseconds.
- `src/cross.rs`: the cross mode, including the well-imbalance rule and the
  random pick of a well when selection times out.
- `src/session.rs`: when a benchmark game stops (top-out, cap, stall).
- `src/grid.rs`, `bitboard.rs`, `placement.rs`, `greedy.rs`,
  `dellacherie.rs`, `lookahead.rs`: occupancy grids, the `u16`-per-row
  bitboard, placement enumeration, integer board features, snapshots for
  two-ply search, and executing a chosen placement.
- `app/`: the floating-point evaluators that rank placements, the
  wasm-bindgen bridge for the browser UI, and the headless benchmark.
- `tests/`: scenario tests for the library.
