//! A two-player tic-tac-toe engine: a human against a computer that picks
//! its cells at random, with every rule of the game stated and proved.
//!
//! - [`board`]: the board and the texts in its cells.
//! - [`detect`]: how a mark wins, and the search for the mark that has.
//! - [`game`]: the game, its moves and its turns.
//! - [`moves`]: reading the human's move from a line of text.
//! - [`render`]: the picture of the board.
//! - [`status`]: the sides, and how a game stands and ends.
//! - [`offset`]: moving an index by a signed step.
//! - [`laws`]: what holds of every game.

pub mod board;
pub mod detect;
pub mod game;
pub mod laws;
pub mod moves;
pub mod offset;
mod picker;
pub mod render;
pub mod status;
