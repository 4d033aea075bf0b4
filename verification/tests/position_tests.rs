use ultimate_ttt::position::{BoardPosition, WINNING_LINES};

const ALL: [BoardPosition; 9] = [
    BoardPosition::TopLeft,
    BoardPosition::TopMiddle,
    BoardPosition::TopRight,
    BoardPosition::MiddleLeft,
    BoardPosition::Center,
    BoardPosition::MiddleRight,
    BoardPosition::BottomLeft,
    BoardPosition::BottomMiddle,
    BoardPosition::BottomRight,
];

#[test]
fn to_index_is_row_major() {
    assert_eq!(BoardPosition::TopLeft.to_index(), 0);
    assert_eq!(BoardPosition::TopMiddle.to_index(), 1);
    assert_eq!(BoardPosition::TopRight.to_index(), 2);
    assert_eq!(BoardPosition::MiddleLeft.to_index(), 3);
    assert_eq!(BoardPosition::Center.to_index(), 4);
    assert_eq!(BoardPosition::MiddleRight.to_index(), 5);
    assert_eq!(BoardPosition::BottomLeft.to_index(), 6);
    assert_eq!(BoardPosition::BottomMiddle.to_index(), 7);
    assert_eq!(BoardPosition::BottomRight.to_index(), 8);
}

#[test]
fn to_index_hits_every_index_once() {
    let mut seen = [false; 9];
    for position in ALL {
        let index = position.to_index();
        assert!(index < 9);
        assert!(!seen[index]);
        seen[index] = true;
    }
    assert_eq!(seen, [true; 9]);
}

#[test]
fn positions_compare_by_value() {
    let copy = BoardPosition::Center;
    assert_eq!(copy, BoardPosition::Center);
    assert_ne!(copy, BoardPosition::TopLeft);
}

#[test]
fn winning_lines_are_rows_columns_diagonals() {
    assert_eq!(
        WINNING_LINES,
        [
            [0, 1, 2],
            [3, 4, 5],
            [6, 7, 8],
            [0, 3, 6],
            [1, 4, 7],
            [2, 5, 8],
            [0, 4, 8],
            [2, 4, 6],
        ]
    );
}

#[test]
fn winning_lines_are_distinct_triples_within_the_grid() {
    for (n, line) in WINNING_LINES.iter().enumerate() {
        assert!(line[0] < line[1] && line[1] < line[2] && line[2] < 9);
        for other in WINNING_LINES.iter().skip(n + 1) {
            assert_ne!(line, other);
        }
    }
}
