//! What the two levels of the game have in common: a board is made empty,
//! takes moves, and can say whether it has ended.

use vstd::prelude::*;

verus! {

/// A board that players move on in turn.
///
/// A board is a deterministic machine over its view: `spec_new_board` is the
/// state it starts in, `spec_play` the step that a move makes, and
/// `spec_check_for_finish` what a state amounts to.
pub trait Board: View + Sized {
    type Player;

    type PlayResult;

    type Move;

    type Finish;

    /// The view of a board on which nothing has been played.
    spec fn spec_new_board() -> Self::V;

    /// The view that a move leaves behind, and what the move came to.
    spec fn spec_play(board: Self::V, player: Self::Player, choice: Self::Move) -> (
        Self::V,
        Self::PlayResult,
    );

    /// How a board with this view has ended, if it has.
    spec fn spec_check_for_finish(board: Self::V) -> Option<Self::Finish>;

    /// Attempts a move for `player` and reports what it came to.
    fn play(&mut self, player: Self::Player, choice: Self::Move) -> (result: Self::PlayResult)
        ensures
            (final(self)@, result) == Self::spec_play(old(self)@, player, choice),
    ;

    /// How the board has ended, if it has, going by what it holds now. The
    /// answer is a function of the view, so asking again with no move in
    /// between gives the same answer.
    fn check_for_finish(&self) -> (finish: Option<Self::Finish>)
        ensures
            finish == Self::spec_check_for_finish(self@),
    ;

    /// A board on which nothing has been played.
    fn new_board() -> (board: Self)
        ensures
            board@ == Self::spec_new_board(),
    ;
}

} // verus!
