//! Vocabulary shared by both levels of the game: who plays, how a board ends,
//! and what an attempted move comes to.

use vstd::prelude::*;

verus! {

/// One of the two players.
#[derive(Clone, Copy, PartialEq, Eq, Debug, Structural)]
pub enum Player {
    X,
    O,
}

/// How a finished board ended.
#[derive(Clone, Copy, PartialEq, Eq, Debug, Structural)]
pub enum FinishState {
    Win(Player),
    Draw,
}

/// What an attempted move came to. The first three variants report a move that
/// was made, the others a move that was refused.
#[derive(PartialEq, Eq, Debug, Structural)]
pub enum PlayResult {
    /// The move was made and finished the small board it was made on.
    BoardFinish(FinishState),
    /// The move was made and finished the whole game.
    GameFinish(FinishState),
    /// The move was made and play goes on.
    Played,
    /// The cell already holds a mark.
    PositionTaken,
    /// The board, small or large, is already finished.
    BoardIsFilled,
    /// The move is on another small board than the one it has to be on.
    WrongBoard,
    /// A place outside the grid was named.
    IndexError,
}

impl PlayResult {
    /// Whether the result reports a move that was made.
    pub open spec fn succeeded(self) -> bool {
        self is BoardFinish || self is GameFinish || self is Played
    }

    /// Whether the result reports a move that was made.
    pub fn is_success(&self) -> (success: bool)
        ensures
            success == self.succeeded(),
    {
        match self {
            Self::BoardFinish(_) | Self::GameFinish(_) | Self::Played => true,
            _ => false,
        }
    }
}

} // verus!
