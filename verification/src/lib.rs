//! Cross Tetris: a deterministic Tetris engine (single board and the four-well
//! cross mode sharing one piece stream) and the board analysis behind its
//! rule-based placement AI.

pub mod board;
pub mod piece;
pub mod rotation;
pub mod rows;

pub use board::{Board, BOARD_HIDDEN_ROWS, BOARD_TOTAL_HEIGHT, BOARD_VISIBLE_HEIGHT, BOARD_WIDTH};
pub use piece::{ActivePiece, PieceKind, Rotation};
pub mod rng;
pub mod bag;
pub use rng::Rng;
pub use bag::SevenBag;
pub mod scoring;
pub mod actions;
pub use actions::Action;
pub mod motion;
pub mod game;
pub use game::GameState;
pub mod cross;
pub use cross::{Arm, CrossGame};
pub mod grid;
pub mod bitboard;
pub mod placement;
pub mod greedy;
pub mod dellacherie;
pub mod lookahead;
pub mod session;
