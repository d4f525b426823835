//! A Bagh-Chal (tigers and goats) rules engine on a 5x5 grid with
//! restricted diagonal connectivity, together with a time-bounded
//! iterative-deepening minimax search that picks computer moves.
//!
//! The board, move generation, rule application, reversible history and
//! the search are verified against the model in [`game`]; terminal
//! rendering leans on the `colored` crate behind trusted wrappers.

pub mod game;
pub mod board;
pub mod movegen;
pub mod eval;
pub mod search;
pub mod render;
pub mod laws;

pub use game::{GameState, Move, Piece, Player, Position, Winner};
pub use board::Board;
