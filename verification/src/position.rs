//! The nine places of a 3x3 grid and the lines that win one.

use vstd::prelude::*;

verus! {

/// One of the nine places of a 3x3 grid: a cell of a small board, or a small
/// board within the large one.
#[derive(Clone, Copy, PartialEq, Eq, Debug, Structural)]
pub enum BoardPosition {
    TopLeft,
    TopMiddle,
    TopRight,
    MiddleLeft,
    Center,
    MiddleRight,
    BottomLeft,
    BottomMiddle,
    BottomRight,
}

impl BoardPosition {
    /// Row of the place, 0 at the top.
    pub open spec fn row(self) -> int {
        match self {
            BoardPosition::TopLeft | BoardPosition::TopMiddle | BoardPosition::TopRight => 0,
            BoardPosition::MiddleLeft | BoardPosition::Center | BoardPosition::MiddleRight => 1,
            BoardPosition::BottomLeft
            | BoardPosition::BottomMiddle
            | BoardPosition::BottomRight => 2,
        }
    }

    /// Column of the place, 0 at the left.
    pub open spec fn column(self) -> int {
        match self {
            BoardPosition::TopLeft | BoardPosition::MiddleLeft | BoardPosition::BottomLeft => 0,
            BoardPosition::TopMiddle | BoardPosition::Center | BoardPosition::BottomMiddle => 1,
            BoardPosition::TopRight | BoardPosition::MiddleRight | BoardPosition::BottomRight => 2,
        }
    }

    /// Dense row-major index of the place.
    pub open spec fn index(self) -> int {
        3 * self.row() + self.column()
    }

    /// The place with dense index `index`.
    pub open spec fn at(index: int) -> BoardPosition {
        if index == 0 {
            BoardPosition::TopLeft
        } else if index == 1 {
            BoardPosition::TopMiddle
        } else if index == 2 {
            BoardPosition::TopRight
        } else if index == 3 {
            BoardPosition::MiddleLeft
        } else if index == 4 {
            BoardPosition::Center
        } else if index == 5 {
            BoardPosition::MiddleRight
        } else if index == 6 {
            BoardPosition::BottomLeft
        } else if index == 7 {
            BoardPosition::BottomMiddle
        } else {
            BoardPosition::BottomRight
        }
    }

    /// The index maps the nine places one to one onto 0 to 8: every place has
    /// an index in that range and is the place at its index, and every index
    /// in that range is the index of the place at it.
    pub proof fn lemma_index_is_bijective()
        ensures
            forall|position: BoardPosition|
                0 <= #[trigger] position.index() < 9 && BoardPosition::at(position.index())
                    == position,
            forall|index: int|
                0 <= index < 9 ==> (#[trigger] BoardPosition::at(index)).index() == index,
    {
    }

    /// Dense row-major index of the place, between 0 and 8.
    pub fn to_index(self) -> (index: usize)
        ensures
            index == self.index(),
            index < 9,
    {
        match self {
            BoardPosition::TopLeft => 0,
            BoardPosition::TopMiddle => 1,
            BoardPosition::TopRight => 2,
            BoardPosition::MiddleLeft => 3,
            BoardPosition::Center => 4,
            BoardPosition::MiddleRight => 5,
            BoardPosition::BottomLeft => 6,
            BoardPosition::BottomMiddle => 7,
            BoardPosition::BottomRight => 8,
        }
    }
}

/// The eight winning lines of a 3x3 grid as triples of indices: the rows from
/// the top, the columns from the left, then the two diagonals.
pub const WINNING_LINES: [[usize; 3]; 8] = [
    [0, 1, 2],
    [3, 4, 5],
    [6, 7, 8],
    [0, 3, 6],
    [1, 4, 7],
    [2, 5, 8],
    [0, 4, 8],
    [2, 4, 6],
];

/// The three indices of winning line `line`, in rising order: lines 0 to 2
/// are the rows from the top, 3 to 5 the columns from the left, 6 the diagonal
/// from the top left and 7 the diagonal from the top right.
pub open spec fn line_cells(line: int) -> (int, int, int) {
    if 0 <= line < 3 {
        (3 * line, 3 * line + 1, 3 * line + 2)
    } else if 3 <= line < 6 {
        (line - 3, line, line + 3)
    } else if line == 6 {
        (0, 4, 8)
    } else {
        (2, 4, 6)
    }
}

/// Whether three places lie in one row, in one column or on one diagonal.
pub open spec fn in_a_line(a: BoardPosition, b: BoardPosition, c: BoardPosition) -> bool {
    ||| a.row() == b.row() && b.row() == c.row()
    ||| a.column() == b.column() && b.column() == c.column()
    ||| a.row() == a.column() && b.row() == b.column() && c.row() == c.column()
    ||| a.row() + a.column() == 2 && b.row() + b.column() == 2 && c.row() + c.column() == 2
}

/// Entry `line` of the table of winning lines holds the indices of winning
/// line `line`.
pub proof fn lemma_winning_lines_table()
    ensures
        forall|line: int|
            #![trigger WINNING_LINES[line]]
            0 <= line < 8 ==> {
                &&& WINNING_LINES[line][0] == line_cells(line).0
                &&& WINNING_LINES[line][1] == line_cells(line).1
                &&& WINNING_LINES[line][2] == line_cells(line).2
            },
{
    broadcast use vstd::array::group_array_axioms;
    let table = WINNING_LINES;
    assert(table[0] == [0usize, 1, 2]);
    assert(table[1] == [3usize, 4, 5]);
    assert(table[2] == [6usize, 7, 8]);
    assert(table[3] == [0usize, 3, 6]);
    assert(table[4] == [1usize, 4, 7]);
    assert(table[5] == [2usize, 5, 8]);
    assert(table[6] == [0usize, 4, 8]);
    assert(table[7] == [2usize, 4, 6]);
}

/// The eight winning lines are the three rows, the three columns and the two
/// diagonals, and nothing else: each line holds three different places of the
/// grid that lie in a line, and any three different places that lie in a line
/// are one of the eight.
pub proof fn lemma_lines_are_rows_columns_diagonals()
    ensures
        forall|line: int|
            0 <= line < 8 ==> {
                let (a, b, c) = #[trigger] line_cells(line);
                0 <= a < b < c < 9 && in_a_line(
                    BoardPosition::at(a),
                    BoardPosition::at(b),
                    BoardPosition::at(c),
                )
            },
        forall|a: int, b: int, c: int|
            0 <= a < b < c < 9 && #[trigger] in_a_line(
                BoardPosition::at(a),
                BoardPosition::at(b),
                BoardPosition::at(c),
            ) ==> exists|line: int| 0 <= line < 8 && #[trigger] line_cells(line) == (a, b, c),
{
    assert forall|a: int, b: int, c: int|
        0 <= a < b < c < 9 && #[trigger] in_a_line(
            BoardPosition::at(a),
            BoardPosition::at(b),
            BoardPosition::at(c),
        ) implies exists|line: int| 0 <= line < 8 && #[trigger] line_cells(line) == (a, b, c) by {
        let line = if b == a + 1 {
            a / 3
        } else if b == a + 3 {
            a + 3
        } else if b == a + 4 {
            6
        } else {
            7
        };
        assert(line_cells(line) == (a, b, c));
    }
}

} // verus!
