//! The large board: nine small boards, of which each counts as a cell once it
//! has ended, and the rule that a move sends the opponent to a small board.

use vstd::prelude::*;
use crate::board::Board;
use crate::finish::{
    detect_finish, finish_of, has_line, lemma_empty_slots_are_open, lemma_finish_cases,
    lemma_new_slot_gives_others_no_line, Slot,
};
use crate::tictactoe::{BoardPosition, FinishState, PlayResult, Player, SmallBoardView, TTTBoard};

verus! {

/// A move on the large board: the small board to play on, and the cell of it.
pub struct UTTTMove {
    pub large_position: BoardPosition,
    pub small_position: BoardPosition,
}

impl From<(BoardPosition, BoardPosition)> for UTTTMove {
    /// The move on small board `value.0` at cell `value.1`.
    fn from(value: (BoardPosition, BoardPosition)) -> (choice: UTTTMove) {
        UTTTMove { large_position: value.0, small_position: value.1 }
    }
}

impl vstd::std_specs::convert::FromSpecImpl<(BoardPosition, BoardPosition)> for UTTTMove {
    open spec fn obeys_from_spec() -> bool {
        true
    }

    open spec fn from_spec(value: (BoardPosition, BoardPosition)) -> UTTTMove {
        UTTTMove { large_position: value.0, small_position: value.1 }
    }
}

/// The large board: nine small boards in row-major order, how the game ended
/// once it has, and the small board that the next move has to be on, if any.
#[derive(Debug)]
pub struct UTTTBoard {
    state: Option<FinishState>,
    board: [TTTBoard; 9],
    play_in: Option<BoardPosition>,
}

/// A large board as a mathematical value.
pub struct LargeBoardView {
    pub state: Option<FinishState>,
    pub boards: Seq<SmallBoardView>,
    pub next_required_board: Option<BoardPosition>,
}

impl View for UTTTBoard {
    type V = LargeBoardView;

    closed spec fn view(&self) -> LargeBoardView {
        LargeBoardView {
            state: self.state,
            boards: Seq::new(9, |i: int| self.board@[i]@),
            next_required_board: self.play_in,
        }
    }
}

impl LargeBoardView {
    /// The game in which nothing has been played: nine empty small boards and
    /// a free choice among them.
    pub open spec fn empty() -> LargeBoardView {
        LargeBoardView {
            state: None,
            boards: Seq::new(9, |i: int| SmallBoardView::empty()),
            next_required_board: None,
        }
    }

    /// What the small boards count as when the game is judged: an open board
    /// is empty, a won board is its winner's, a drawn board is nobody's.
    pub open spec fn slots(self) -> Seq<Slot> {
        Seq::new(self.boards.len(), |i: int| Slot::of_board(self.boards[i].state))
    }

    /// How the game has ended, if it has, going by the states of the small
    /// boards.
    pub open spec fn finish(self) -> Option<FinishState> {
        finish_of(self.slots())
    }

    /// Whether the next move may be on small board `large_position`.
    pub open spec fn allows(self, large_position: BoardPosition) -> bool {
        match self.next_required_board {
            Some(required) => required == large_position,
            None => true,
        }
    }

    /// The game with the small board of `choice` replaced by what an attempt
    /// of `player` at the cell of `choice` leaves of it.
    pub open spec fn with_small_play(self, player: Player, choice: UTTTMove) -> LargeBoardView {
        let large = choice.large_position.index();
        LargeBoardView {
            state: self.state,
            boards: self.boards.update(
                large,
                self.boards[large].after_play(player, choice.small_position),
            ),
            next_required_board: self.next_required_board,
        }
    }

    /// The small board that a move at cell `small_position` sends the opponent
    /// to: the one at that place if it is still open, else none.
    pub open spec fn sends_to(self, small_position: BoardPosition) -> Option<BoardPosition> {
        if self.boards[small_position.index()].state is None {
            Some(small_position)
        } else {
            None
        }
    }

    /// What an attempt of `player` at `choice` comes to.
    pub open spec fn play_result(self, player: Player, choice: UTTTMove) -> PlayResult {
        if self.state is Some {
            PlayResult::BoardIsFilled
        } else if !self.allows(choice.large_position) {
            PlayResult::WrongBoard
        } else {
            let small = self.boards[choice.large_position.index()];
            match small.play_result(player, choice.small_position) {
                PlayResult::BoardFinish(finish) => match self.with_small_play(
                    player,
                    choice,
                ).finish() {
                    Some(game) => PlayResult::GameFinish(game),
                    None => PlayResult::BoardFinish(finish),
                },
                other => other,
            }
        }
    }

    /// The game after an attempt of `player` at `choice`: unchanged where the
    /// move is refused; with the game's finish recorded where the move brings
    /// it; else with the opponent sent to the small board named by the cell.
    pub open spec fn after_play(self, player: Player, choice: UTTTMove) -> LargeBoardView {
        let moved = self.with_small_play(player, choice);
        match self.play_result(player, choice) {
            PlayResult::GameFinish(game) => LargeBoardView {
                state: Some(game),
                boards: moved.boards,
                next_required_board: self.next_required_board,
            },
            PlayResult::BoardFinish(_) | PlayResult::Played => LargeBoardView {
                state: self.state,
                boards: moved.boards,
                next_required_board: moved.sends_to(choice.small_position),
            },
            _ => self,
        }
    }
}

impl LargeBoardView {
    /// There are nine small boards, each well formed; the recorded state is
    /// the one that the small boards amount to; at most one player holds a
    /// line of small boards; and while the game goes on a required board is
    /// one that has not ended.
    pub open spec fn wf(self) -> bool {
        &&& self.boards.len() == 9
        &&& forall|i: int| 0 <= i < 9 ==> (#[trigger] self.boards[i]).wf()
        &&& self.state == self.finish()
        &&& !(has_line(self.slots(), Player::X) && has_line(self.slots(), Player::O))
        &&& self.state is None ==> match self.next_required_board {
            Some(required) => self.boards[required.index()].state is None,
            None => true,
        }
    }

    /// The empty game is well formed and has not ended.
    pub proof fn lemma_empty_is_wf()
        ensures
            Self::empty().wf(),
            Self::empty().state is None,
    {
        SmallBoardView::lemma_empty_is_wf();
        lemma_empty_slots_are_open(Self::empty().slots());
    }

    /// A move on a well-formed game leaves a well-formed game.
    pub proof fn lemma_play_keeps_wf(self, player: Player, choice: UTTTMove)
        requires
            self.wf(),
        ensures
            self.after_play(player, choice).wf(),
    {
        let large = choice.large_position.index();
        let moved = self.with_small_play(player, choice);
        let after = self.after_play(player, choice);
        self.boards[large].lemma_play_keeps_wf(player, choice.small_position);
        if self.play_result(player, choice).succeeded() {
            let slot = Slot::of_board(moved.boards[large].state);
            assert(after.slots() =~= self.slots().update(large, slot));
            if self.play_result(player, choice) is Played {
                assert(after.slots() =~= self.slots());
            } else {
                if slot != Slot::Taken(Player::X) {
                    lemma_new_slot_gives_others_no_line(self.slots(), large, slot, Player::X);
                } else {
                    lemma_new_slot_gives_others_no_line(self.slots(), large, slot, Player::O);
                }
            }
        }
    }

    /// The game after the attempts `moves`, made in turn on this game.
    pub open spec fn after_moves(self, moves: Seq<(Player, UTTTMove)>) -> LargeBoardView
        decreases moves.len(),
    {
        if moves.len() == 0 {
            self
        } else {
            self.after_moves(moves.drop_last()).after_play(moves.last().0, moves.last().1)
        }
    }

    /// Whatever is attempted on an empty game, in whatever order and by
    /// whichever player, the game stays well formed.
    pub proof fn lemma_every_game_is_wf(moves: Seq<(Player, UTTTMove)>)
        ensures
            Self::empty().after_moves(moves).wf(),
        decreases moves.len(),
    {
        if moves.len() == 0 {
            Self::lemma_empty_is_wf();
        } else {
            Self::lemma_every_game_is_wf(moves.drop_last());
            Self::empty().after_moves(moves.drop_last()).lemma_play_keeps_wf(
                moves.last().0,
                moves.last().1,
            );
        }
    }

    /// A move that is refused leaves the game as it was. A move that is made
    /// changes the small board it is on as that board's own rules say, and no
    /// other small board. The game ends exactly on a move reported as
    /// finishing it, and no move is reported as out of range.
    pub proof fn lemma_made_or_refused(self, player: Player, choice: UTTTMove)
        requires
            self.boards.len() == 9,
        ensures
            ({
                let result = self.play_result(player, choice);
                let after = self.after_play(player, choice);
                let large = choice.large_position.index();
                &&& !result.succeeded() ==> after == self
                &&& result.succeeded() ==> after.boards == self.boards.update(
                    large,
                    self.boards[large].after_play(player, choice.small_position),
                )
                &&& self.state is None ==> (after.state is Some <==> result is GameFinish)
                &&& !(result is IndexError)
            }),
    {
    }

    /// While the game goes on and the move is on a board it may be on, a move
    /// onto a cell that holds a mark, on a small board that has not ended, is
    /// refused as taken and leaves the game as it was.
    pub proof fn lemma_occupied_cell_is_refused(self, player: Player, choice: UTTTMove)
        requires
            self.state is None,
            self.allows(choice.large_position),
            self.boards[choice.large_position.index()].state is None,
            self.boards[choice.large_position.index()].cells[choice.small_position.index()] is Some,
        ensures
            self.play_result(player, choice) == PlayResult::PositionTaken,
            self.after_play(player, choice) == self,
    {
    }

    /// While the game goes on and a board is required, a move on any other
    /// small board is refused as being on the wrong board and leaves the game
    /// as it was.
    pub proof fn lemma_other_board_is_refused(self, player: Player, choice: UTTTMove)
        requires
            self.state is None,
            self.next_required_board is Some,
            self.next_required_board != Some(choice.large_position),
        ensures
            self.play_result(player, choice) == PlayResult::WrongBoard,
            self.after_play(player, choice) == self,
    {
    }

    /// A game that has ended refuses every move and stays as it is.
    pub proof fn lemma_finished_game_is_closed(self, player: Player, choice: UTTTMove)
        requires
            self.state is Some,
        ensures
            self.play_result(player, choice) == PlayResult::BoardIsFilled,
            self.after_play(player, choice) == self,
    {
    }

    /// After a move that is made and does not end the game, the opponent has
    /// to play on the small board named by the cell of the move if that board
    /// has not ended, and has no board required otherwise.
    pub proof fn lemma_move_sends_opponent(self, player: Player, choice: UTTTMove)
        requires
            self.play_result(player, choice).succeeded(),
            !(self.play_result(player, choice) is GameFinish),
        ensures
            ({
                let after = self.after_play(player, choice);
                after.next_required_board == if after.boards[choice.small_position.index()].state
                    is None {
                    Some(choice.small_position)
                } else {
                    None
                }
            }),
    {
    }

    /// A move that is made, does not end the game, and names by its cell a
    /// small board that has ended, leaves the opponent a free choice.
    pub proof fn lemma_sent_to_finished_board_is_free(self, player: Player, choice: UTTTMove)
        requires
            self.play_result(player, choice).succeeded(),
            !(self.play_result(player, choice) is GameFinish),
            self.after_play(player, choice).boards[choice.small_position.index()].state is Some,
        ensures
            self.after_play(player, choice).next_required_board is None,
    {
    }

    /// How the game has ended depends on nothing but how each of the small
    /// boards has ended: not on their cells, nor on the required board, nor on
    /// the order of the moves that led there.
    pub proof fn lemma_finish_depends_on_small_states(self, other: LargeBoardView)
        requires
            self.boards.len() == other.boards.len(),
            forall|i: int|
                0 <= i < self.boards.len() ==> (#[trigger] self.boards[i]).state
                    == other.boards[i].state,
        ensures
            self.finish() == other.finish(),
    {
        assert(self.slots() =~= other.slots());
    }

    /// A well-formed game that has not ended has a move that is made, whoever
    /// makes it: the rule of the required board never leaves a player without
    /// a move.
    pub proof fn lemma_open_game_has_a_move(self) -> (choice: UTTTMove)
        requires
            self.wf(),
            self.state is None,
        ensures
            forall|player: Player| #[trigger] self.play_result(player, choice).succeeded(),
    {
        BoardPosition::lemma_index_is_bijective();
        let large = match self.next_required_board {
            Some(required) => required,
            None => {
                lemma_finish_cases(self.slots());
                let i = choose|i: int|
                    0 <= i < self.slots().len() && #[trigger] self.slots()[i] == Slot::Empty;
                BoardPosition::at(i)
            },
        };
        let small_board = self.boards[large.index()];
        assert(small_board.wf());
        assert(small_board.state is None);
        lemma_finish_cases(small_board.slots());
        let j = choose|j: int|
            0 <= j < small_board.slots().len() && #[trigger] small_board.slots()[j] == Slot::Empty;
        let small = BoardPosition::at(j);
        let choice = UTTTMove { large_position: large, small_position: small };
        assert(small_board.accepts(small));
        choice
    }
}

impl UTTTBoard {
    /// How the game ended, as recorded by the move that ended it; `None`
    /// while the game goes on.
    pub fn finish_state(&self) -> (state: Option<FinishState>)
        ensures
            state == self@.state,
    {
        self.state
    }

    /// The small board that the next move has to be on, if any. Once the
    /// game has ended this is what it was before the last move.
    pub fn next_required_board(&self) -> (required: Option<BoardPosition>)
        ensures
            required == self@.next_required_board,
    {
        self.play_in
    }

    /// The small board at `position`.
    pub fn small_board(&self, position: BoardPosition) -> (small: &TTTBoard)
        ensures
            small@ == self@.boards[position.index()],
    {
        &self.board[position.to_index()]
    }

    /// The small boards as slots for finish detection.
    fn slots(&self) -> (slots: [Slot; 9])
        ensures
            slots@ == self@.slots(),
    {
        let mut slots = [Slot::Empty;9];
        let mut i: usize = 0;
        while i < 9
            invariant
                i <= 9,
                forall|k: int| 0 <= k < i ==> slots@[k] == Slot::of_board(self.board@[k].state),
            decreases 9 - i,
        {
            slots[i] = Slot::from_board(self.board[i].state);
            i += 1;
        }
        slots
    }
}

impl Board for UTTTBoard {
    type Player = Player;

    type PlayResult = PlayResult;

    type Move = UTTTMove;

    type Finish = FinishState;

    open spec fn spec_new_board() -> LargeBoardView {
        LargeBoardView::empty()
    }

    open spec fn spec_play(board: LargeBoardView, player: Player, choice: UTTTMove) -> (
        LargeBoardView,
        PlayResult,
    ) {
        (board.after_play(player, choice), board.play_result(player, choice))
    }

    open spec fn spec_check_for_finish(board: LargeBoardView) -> Option<FinishState> {
        board.finish()
    }

    /// Attempts the move `choice` for `player`: refuses it if the game is over
    /// or the move is on another small board than the required one, else
    /// hands it to the small board, judges the game anew if that board ended,
    /// and otherwise sends the opponent to the small board named by the cell.
    fn play(&mut self, player: Player, choice: UTTTMove) -> (result: PlayResult)
        ensures
            final(self)@ == old(self)@.after_play(player, choice),
            result == old(self)@.play_result(player, choice),
            old(self)@.wf() ==> final(self)@.wf(),
    {
        proof {
            if self@.wf() {
                self@.lemma_play_keeps_wf(player, choice);
            }
        }
        if self.state.is_some() {
            return PlayResult::BoardIsFilled;
        }
        if let Some(required) = self.play_in {
            if required != choice.large_position {
                return PlayResult::WrongBoard;
            }
        }
        let large = choice.large_position.to_index();
        let result = self.board[large].play(player, choice.small_position);
        assert(self@.boards =~= old(self)@.with_small_play(player, choice).boards);
        if let PlayResult::BoardFinish(_) = result {
            if let Some(game) = self.check_for_finish() {
                self.state = Some(game);
                return PlayResult::GameFinish(game);
            }
        }
        if result.is_success() {
            let small = choice.small_position.to_index();
            if self.board[small].state.is_none() {
                self.play_in = Some(choice.small_position);
            } else {
                self.play_in = None;
            }
        }
        assert(self@.boards =~= old(self)@.after_play(player, choice).boards);
        result
    }

    /// How the game has ended, if it has, going by the small boards' states.
    fn check_for_finish(&self) -> (finish: Option<FinishState>)
        ensures
            finish == self@.finish(),
    {
        let slots = self.slots();
        detect_finish(&slots)
    }

    /// A game of nine empty small boards with no required board.
    fn new_board() -> (board: UTTTBoard)
        ensures
            board@ == LargeBoardView::empty(),
            board@.wf(),
    {
        let board = UTTTBoard { state: None, board: [TTTBoard::new_board();9], play_in: None };
        proof {
            assert(board@.boards =~= LargeBoardView::empty().boards);
            LargeBoardView::lemma_empty_is_wf();
        }
        board
    }
}

} // verus!
