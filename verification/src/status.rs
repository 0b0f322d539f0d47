//! Whose turn it is, whether the game goes on, and how it ended.

use vstd::prelude::*;

verus! {

/// One of the two sides.
#[derive(Clone, Copy, Debug, PartialEq, Eq, Structural)]
pub enum Player {
    Human,
    Computer,
}

/// Whether the game still goes on.
#[derive(Clone, Copy, Debug, PartialEq, Eq, Structural)]
pub enum GameStatus {
    InProgress,
    Over,
}

/// How the game ended. `Draw` is also what a game holds until a mark is
/// found to have won.
#[derive(Clone, Copy, Debug, PartialEq, Eq, Structural)]
pub enum GameResult {
    Win,
    Lose,
    Draw,
}

} // verus!
