//! The small board: one game of Tic-Tac-Toe on nine cells.

use vstd::prelude::*;
use crate::board::Board;
use crate::finish::{
    detect_finish, finish_of, has_line, is_full, lemma_completed_line_wins,
    lemma_empty_slots_are_open, lemma_full_board_without_line_is_drawn,
    lemma_new_slot_gives_others_no_line, owns_line, Slot,
};
pub use crate::outcome::{FinishState, PlayResult, Player};
pub use crate::position::{BoardPosition, WINNING_LINES};

verus! {

/// A small board: nine cells in row-major order, each empty or holding a
/// player's mark, and how the board ended once it has.
#[derive(Clone, Copy, Debug)]
pub struct TTTBoard {
    pub state: Option<FinishState>,
    pub board: [Option<Player>; 9],
}

/// A small board as a mathematical value.
pub struct SmallBoardView {
    pub state: Option<FinishState>,
    pub cells: Seq<Option<Player>>,
}

impl View for TTTBoard {
    type V = SmallBoardView;

    open spec fn view(&self) -> SmallBoardView {
        SmallBoardView { state: self.state, cells: self.board@ }
    }
}

impl SmallBoardView {
    /// The board on which nothing has been played.
    pub open spec fn empty() -> SmallBoardView {
        SmallBoardView { state: None, cells: Seq::new(9, |i: int| None) }
    }

    /// What the cells count as when the board is judged.
    pub open spec fn slots(self) -> Seq<Slot> {
        Seq::new(self.cells.len(), |i: int| Slot::of_cell(self.cells[i]))
    }

    /// How the board has ended, if it has, going by its cells.
    pub open spec fn finish(self) -> Option<FinishState> {
        finish_of(self.slots())
    }

    /// There are nine cells, the recorded state is the one that the cells
    /// amount to, and at most one player holds a line.
    pub open spec fn wf(self) -> bool {
        &&& self.cells.len() == 9
        &&& self.state == self.finish()
        &&& !(has_line(self.slots(), Player::X) && has_line(self.slots(), Player::O))
    }

    /// Whether a mark may be placed at `position`: the board is still open and
    /// the cell is empty.
    pub open spec fn accepts(self, position: BoardPosition) -> bool {
        self.state is None && self.cells[position.index()] is None
    }

    /// The board with `player`'s mark placed at `position`, not yet judged.
    pub open spec fn with_mark(self, player: Player, position: BoardPosition) -> SmallBoardView {
        SmallBoardView {
            state: self.state,
            cells: self.cells.update(position.index(), Some(player)),
        }
    }

    /// What an attempt of `player` to mark `position` comes to.
    pub open spec fn play_result(self, player: Player, position: BoardPosition) -> PlayResult {
        if self.state is Some {
            PlayResult::BoardIsFilled
        } else if self.cells[position.index()] is Some {
            PlayResult::PositionTaken
        } else {
            match self.with_mark(player, position).finish() {
                Some(finish) => PlayResult::BoardFinish(finish),
                None => PlayResult::Played,
            }
        }
    }

    /// The board after an attempt of `player` to mark `position`: unchanged
    /// where the move is refused, else with the mark placed and the state that
    /// the cells then amount to.
    pub open spec fn after_play(self, player: Player, position: BoardPosition) -> SmallBoardView {
        if self.accepts(position) {
            let marked = self.with_mark(player, position);
            SmallBoardView { state: marked.finish(), cells: marked.cells }
        } else {
            self
        }
    }
}

impl SmallBoardView {
    /// The empty board is well formed and has not ended.
    pub proof fn lemma_empty_is_wf()
        ensures
            Self::empty().wf(),
            Self::empty().state is None,
    {
        lemma_empty_slots_are_open(Self::empty().slots());
    }

    /// A move on a well-formed board leaves a well-formed board.
    pub proof fn lemma_play_keeps_wf(self, player: Player, position: BoardPosition)
        requires
            self.wf(),
        ensures
            self.after_play(player, position).wf(),
    {
        if self.accepts(position) {
            let index = position.index();
            let other = if player == Player::X {
                Player::O
            } else {
                Player::X
            };
            let after = self.after_play(player, position);
            assert(after.slots() =~= self.slots().update(index, Slot::Taken(player)));
            lemma_new_slot_gives_others_no_line(self.slots(), index, Slot::Taken(player), other);
        }
    }

    /// The board after the attempts `moves`, made in turn on this board.
    pub open spec fn after_moves(self, moves: Seq<(Player, BoardPosition)>) -> SmallBoardView
        decreases moves.len(),
    {
        if moves.len() == 0 {
            self
        } else {
            self.after_moves(moves.drop_last()).after_play(moves.last().0, moves.last().1)
        }
    }

    /// Whatever is attempted on an empty board, in whatever order and by
    /// whichever player, the board stays well formed.
    pub proof fn lemma_every_board_is_wf(moves: Seq<(Player, BoardPosition)>)
        ensures
            Self::empty().after_moves(moves).wf(),
        decreases moves.len(),
    {
        if moves.len() == 0 {
            Self::lemma_empty_is_wf();
        } else {
            Self::lemma_every_board_is_wf(moves.drop_last());
            Self::empty().after_moves(moves.drop_last()).lemma_play_keeps_wf(
                moves.last().0,
                moves.last().1,
            );
        }
    }

    /// A move is made exactly when the board accepts it. A move that is made
    /// puts the player's mark on its cell and changes no other cell, and is
    /// reported as played or as finishing the board. A move that is refused
    /// leaves the board as it was, and is reported as on a taken cell or on a
    /// finished board.
    pub proof fn lemma_made_or_refused(self, player: Player, position: BoardPosition)
        ensures
            ({
                let result = self.play_result(player, position);
                let after = self.after_play(player, position);
                &&& result.succeeded() <==> self.accepts(position)
                &&& result.succeeded() ==> {
                    &&& after.cells == self.cells.update(position.index(), Some(player))
                    &&& result is Played || result is BoardFinish
                }
                &&& !result.succeeded() ==> {
                    &&& after == self
                    &&& result is PositionTaken || result is BoardIsFilled
                }
            }),
    {
    }

    /// A move that completes a line for its player, while no other line is
    /// complete, wins the board for that player, and the board then refuses
    /// every further move and stays as it is.
    pub proof fn lemma_completing_a_line_wins(
        self,
        player: Player,
        position: BoardPosition,
        line: int,
    )
        requires
            self.accepts(position),
            0 <= line < 8,
            owns_line(self.with_mark(player, position).slots(), player, line),
            forall|other: int, anyone: Player|
                0 <= other < 8 && other != line ==> !#[trigger] owns_line(
                    self.with_mark(player, position).slots(),
                    anyone,
                    other,
                ),
        ensures
            ({
                let won = self.after_play(player, position);
                &&& self.play_result(player, position) == PlayResult::BoardFinish(
                    FinishState::Win(player),
                )
                &&& won.state == Some(FinishState::Win(player))
                &&& forall|next: Player, place: BoardPosition|
                    #![trigger won.play_result(next, place)]
                    #![trigger won.after_play(next, place)]
                    won.play_result(next, place) == PlayResult::BoardIsFilled && won.after_play(
                        next,
                        place,
                    ) == won
            }),
    {
        lemma_completed_line_wins(self.with_mark(player, position).slots(), player, line);
    }

    /// A move that fills the last empty cell without completing a line draws
    /// the board.
    pub proof fn lemma_filling_without_line_draws(self, player: Player, position: BoardPosition)
        requires
            self.accepts(position),
            is_full(self.with_mark(player, position).slots()),
            forall|line: int, anyone: Player|
                0 <= line < 8 ==> !#[trigger] owns_line(
                    self.with_mark(player, position).slots(),
                    anyone,
                    line,
                ),
        ensures
            self.play_result(player, position) == PlayResult::BoardFinish(FinishState::Draw),
            self.after_play(player, position).state == Some(FinishState::Draw),
    {
        lemma_full_board_without_line_is_drawn(self.with_mark(player, position).slots());
    }

    /// On a board that has not ended, a move onto a cell that holds a mark is
    /// refused as taken and leaves the board as it was.
    pub proof fn lemma_occupied_cell_is_refused(self, player: Player, position: BoardPosition)
        requires
            self.state is None,
            self.cells[position.index()] is Some,
        ensures
            self.play_result(player, position) == PlayResult::PositionTaken,
            self.after_play(player, position) == self,
    {
    }

    /// A board that has ended refuses every move and stays as it is.
    pub proof fn lemma_finished_board_is_closed(self, player: Player, position: BoardPosition)
        requires
            self.state is Some,
        ensures
            self.play_result(player, position) == PlayResult::BoardIsFilled,
            self.after_play(player, position) == self,
    {
    }
}

impl TTTBoard {
    /// The cells as slots for finish detection.
    fn slots(&self) -> (slots: [Slot; 9])
        ensures
            slots@ == self@.slots(),
    {
        let mut slots = [Slot::Empty;9];
        let mut i: usize = 0;
        while i < 9
            invariant
                i <= 9,
                forall|k: int| 0 <= k < i ==> slots@[k] == Slot::of_cell(self.board@[k]),
            decreases 9 - i,
        {
            slots[i] = Slot::from_cell(self.board[i]);
            i += 1;
        }
        slots
    }
}

impl Board for TTTBoard {
    type Player = Player;

    type PlayResult = PlayResult;

    type Move = BoardPosition;

    type Finish = FinishState;

    open spec fn spec_new_board() -> SmallBoardView {
        SmallBoardView::empty()
    }

    open spec fn spec_play(board: SmallBoardView, player: Player, choice: BoardPosition) -> (
        SmallBoardView,
        PlayResult,
    ) {
        (board.after_play(player, choice), board.play_result(player, choice))
    }

    open spec fn spec_check_for_finish(board: SmallBoardView) -> Option<FinishState> {
        board.finish()
    }

    /// Places `player`'s mark at `position` if the board is still open and the
    /// cell is empty, and records the finish if the mark brings one.
    fn play(&mut self, player: Player, position: BoardPosition) -> (result: PlayResult)
        ensures
            final(self)@ == old(self)@.after_play(player, position),
            result == old(self)@.play_result(player, position),
            old(self)@.wf() ==> final(self)@.wf(),
    {
        proof {
            if self@.wf() {
                self@.lemma_play_keeps_wf(player, position);
            }
        }
        if self.state.is_some() {
            return PlayResult::BoardIsFilled;
        }
        let index = position.to_index();
        if self.board[index].is_some() {
            return PlayResult::PositionTaken;
        }
        self.board[index] = Some(player);
        match self.check_for_finish() {
            Some(finish) => {
                self.state = Some(finish);
                PlayResult::BoardFinish(finish)
            },
            None => PlayResult::Played,
        }
    }

    /// How the board has ended, if it has, going by its cells.
    fn check_for_finish(&self) -> (finish: Option<FinishState>)
        ensures
            finish == self@.finish(),
    {
        let slots = self.slots();
        detect_finish(&slots)
    }

    /// A board with nine empty cells.
    fn new_board() -> (board: TTTBoard)
        ensures
            board@ == SmallBoardView::empty(),
            board@.wf(),
    {
        let board = TTTBoard { state: None, board: [None;9] };
        proof {
            assert(board@.cells =~= SmallBoardView::empty().cells);
            SmallBoardView::lemma_empty_is_wf();
        }
        board
    }
}

} // verus!
