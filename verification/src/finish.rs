//! Finish detection on nine slots, the same for a small board's cells and for
//! the large board's small boards.

use vstd::prelude::*;
use crate::outcome::{FinishState, Player};
use crate::position::{lemma_winning_lines_table, line_cells, WINNING_LINES};

verus! {

/// What one of the nine places of a board counts as when the board is judged.
#[derive(Clone, Copy, PartialEq, Eq, Debug, Structural)]
pub enum Slot {
    /// Nothing there yet.
    Empty,
    /// Counts for a player.
    Taken(Player),
    /// Counts for nobody, but is not empty.
    Tied,
}

impl Slot {
    /// What a cell of a small board counts as.
    pub open spec fn of_cell(cell: Option<Player>) -> Slot {
        match cell {
            Some(player) => Slot::Taken(player),
            None => Slot::Empty,
        }
    }

    /// What a small board counts as on the large board, by how it ended.
    pub open spec fn of_board(state: Option<FinishState>) -> Slot {
        match state {
            None => Slot::Empty,
            Some(FinishState::Win(player)) => Slot::Taken(player),
            Some(FinishState::Draw) => Slot::Tied,
        }
    }

    /// What a cell of a small board counts as.
    pub fn from_cell(cell: Option<Player>) -> (slot: Slot)
        ensures
            slot == Slot::of_cell(cell),
    {
        match cell {
            Some(player) => Slot::Taken(player),
            None => Slot::Empty,
        }
    }

    /// What a small board counts as on the large board, by how it ended.
    pub fn from_board(state: Option<FinishState>) -> (slot: Slot)
        ensures
            slot == Slot::of_board(state),
    {
        match state {
            None => Slot::Empty,
            Some(FinishState::Win(player)) => Slot::Taken(player),
            Some(FinishState::Draw) => Slot::Tied,
        }
    }
}

/// Whether all three slots of winning line `line` count for `player`.
pub open spec fn owns_line(slots: Seq<Slot>, player: Player, line: int) -> bool {
    let (a, b, c) = line_cells(line);
    slots[a] == Slot::Taken(player) && slots[b] == Slot::Taken(player) && slots[c] == Slot::Taken(
        player,
    )
}

/// Whether some winning line counts for `player` throughout.
pub open spec fn has_line(slots: Seq<Slot>, player: Player) -> bool {
    exists|line: int| 0 <= line < 8 && #[trigger] owns_line(slots, player, line)
}

/// Whether no slot is empty.
pub open spec fn is_full(slots: Seq<Slot>) -> bool {
    forall|i: int| 0 <= i < slots.len() ==> #[trigger] slots[i] != Slot::Empty
}

/// How a board with these slots has ended, if it has: a line of X wins before
/// a line of O, and a board without a line is drawn once it is full.
pub open spec fn finish_of(slots: Seq<Slot>) -> Option<FinishState> {
    if has_line(slots, Player::X) {
        Some(FinishState::Win(Player::X))
    } else if has_line(slots, Player::O) {
        Some(FinishState::Win(Player::O))
    } else if is_full(slots) {
        Some(FinishState::Draw)
    } else {
        None
    }
}

/// Nine empty slots hold no line for anybody and have not ended.
pub proof fn lemma_empty_slots_are_open(slots: Seq<Slot>)
    requires
        slots.len() == 9,
        forall|i: int| 0 <= i < 9 ==> #[trigger] slots[i] == Slot::Empty,
    ensures
        !has_line(slots, Player::X),
        !has_line(slots, Player::O),
        finish_of(slots) is None,
{
    assert forall|player: Player, line: int| 0 <= line < 8 implies !#[trigger] owns_line(
        slots,
        player,
        line,
    ) by {
        assert(slots[line_cells(line).0] == Slot::Empty);
    }
    assert(slots[0] == Slot::Empty);
}

/// A line that one player holds throughout, while nobody holds any other line
/// throughout, wins the board for that player.
pub proof fn lemma_completed_line_wins(slots: Seq<Slot>, player: Player, line: int)
    requires
        0 <= line < 8,
        owns_line(slots, player, line),
        forall|other: int, anyone: Player|
            0 <= other < 8 && other != line ==> !#[trigger] owns_line(slots, anyone, other),
    ensures
        finish_of(slots) == Some(FinishState::Win(player)),
{
    assert(has_line(slots, player));
    if player == Player::O {
        assert forall|other: int| 0 <= other < 8 implies !#[trigger] owns_line(
            slots,
            Player::X,
            other,
        ) by {
            if other == line {
                assert(slots[line_cells(line).0] == Slot::Taken(Player::O));
            }
        }
    }
}

/// A board on which no slot is empty and nobody holds a line throughout is
/// drawn.
pub proof fn lemma_full_board_without_line_is_drawn(slots: Seq<Slot>)
    requires
        is_full(slots),
        forall|line: int, anyone: Player|
            0 <= line < 8 ==> !#[trigger] owns_line(slots, anyone, line),
    ensures
        finish_of(slots) == Some(FinishState::Draw),
{
}

/// How a board ends, case by case: X wins exactly when X holds a line,
/// whatever O holds; O wins exactly when O holds a line and X none; the board
/// is drawn exactly when it is full and nobody holds a line; and it goes on
/// exactly when nobody holds a line and a slot is empty.
pub proof fn lemma_finish_cases(slots: Seq<Slot>)
    ensures
        finish_of(slots) == Some(FinishState::Win(Player::X)) <==> has_line(slots, Player::X),
        finish_of(slots) == Some(FinishState::Win(Player::O)) <==> has_line(slots, Player::O)
            && !has_line(slots, Player::X),
        finish_of(slots) == Some(FinishState::Draw) <==> is_full(slots) && !has_line(
            slots,
            Player::X,
        ) && !has_line(slots, Player::O),
        finish_of(slots) is None <==> !has_line(slots, Player::X) && !has_line(slots, Player::O)
            && exists|i: int| 0 <= i < slots.len() && #[trigger] slots[i] == Slot::Empty,
{
}

/// Where nobody holds a line, a slot that comes to count for one player, or
/// for nobody, gives the other player no line.
pub proof fn lemma_new_slot_gives_others_no_line(
    slots: Seq<Slot>,
    index: int,
    slot: Slot,
    other: Player,
)
    requires
        slots.len() == 9,
        0 <= index < 9,
        !has_line(slots, other),
        slot != Slot::Taken(other),
    ensures
        !has_line(slots.update(index, slot), other),
{
    let changed = slots.update(index, slot);
    assert forall|line: int| 0 <= line < 8 implies !#[trigger] owns_line(changed, other, line) by {
        if owns_line(changed, other, line) {
            let (a, b, c) = line_cells(line);
            assert(a != index && b != index && c != index);
            assert(owns_line(slots, other, line));
        }
    }
}

/// Whether some winning line counts for `player` throughout.
pub fn player_has_line(slots: &[Slot; 9], player: Player) -> (found: bool)
    ensures
        found == has_line(slots@, player),
{
    let mut line: usize = 0;
    while line < 8
        invariant
            line <= 8,
            forall|l: int| 0 <= l < line ==> !owns_line(slots@, player, l),
        decreases 8 - line,
    {
        proof {
            lemma_winning_lines_table();
        }
        let cells = WINNING_LINES[line];
        if slots[cells[0]] == Slot::Taken(player) && slots[cells[1]] == Slot::Taken(player)
            && slots[cells[2]] == Slot::Taken(player) {
            assert(owns_line(slots@, player, line as int));
            return true;
        }
        line += 1;
    }
    false
}

/// Whether no slot is empty.
pub fn no_slot_empty(slots: &[Slot; 9]) -> (full: bool)
    ensures
        full == is_full(slots@),
{
    let mut i: usize = 0;
    while i < 9
        invariant
            i <= 9,
            forall|k: int| 0 <= k < i ==> slots@[k] != Slot::Empty,
        decreases 9 - i,
    {
        if slots[i] == Slot::Empty {
            return false;
        }
        i += 1;
    }
    true
}

/// How a board with these slots has ended, if it has.
pub fn detect_finish(slots: &[Slot; 9]) -> (finish: Option<FinishState>)
    ensures
        finish == finish_of(slots@),
{
    if player_has_line(slots, Player::X) {
        Some(FinishState::Win(Player::X))
    } else if player_has_line(slots, Player::O) {
        Some(FinishState::Win(Player::O))
    } else if no_slot_empty(slots) {
        Some(FinishState::Draw)
    } else {
        None
    }
}

} // verus!
