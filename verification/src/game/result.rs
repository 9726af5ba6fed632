//! Game result types.

use vstd::prelude::*;

verus! {

/// The result of a single game.
#[derive(Debug, Clone, Copy, PartialEq, Eq, Structural)]
pub enum GameResult {
    /// White won the game
    WhiteWins,
    /// Black won the game
    BlackWins,
    /// The game was a draw
    Draw,
}

impl GameResult {
    /// Returns true if white won.
    #[must_use]
    pub fn is_white_win(self) -> (r: bool)
        ensures
            r == (self is WhiteWins),
    {
        matches!(self, GameResult::WhiteWins)
    }

    /// Returns true if black won.
    #[must_use]
    pub fn is_black_win(self) -> (r: bool)
        ensures
            r == (self is BlackWins),
    {
        matches!(self, GameResult::BlackWins)
    }

    /// Returns true if the game was a draw.
    #[must_use]
    pub fn is_draw(self) -> (r: bool)
        ensures
            r == (self is Draw),
    {
        matches!(self, GameResult::Draw)
    }
}

} // verus!
