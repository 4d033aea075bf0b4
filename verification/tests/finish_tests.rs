use ultimate_ttt::finish::{detect_finish, no_slot_empty, player_has_line, Slot};
use ultimate_ttt::outcome::{FinishState, PlayResult, Player};
use ultimate_ttt::position::WINNING_LINES;

const X: Slot = Slot::Taken(Player::X);
const O: Slot = Slot::Taken(Player::O);
const E: Slot = Slot::Empty;
const T: Slot = Slot::Tied;

#[test]
fn is_success_of_each_variant() {
    assert!(PlayResult::Played.is_success());
    assert!(PlayResult::BoardFinish(FinishState::Draw).is_success());
    assert!(PlayResult::BoardFinish(FinishState::Win(Player::O)).is_success());
    assert!(PlayResult::GameFinish(FinishState::Win(Player::X)).is_success());
    assert!(PlayResult::GameFinish(FinishState::Draw).is_success());
    assert!(!PlayResult::PositionTaken.is_success());
    assert!(!PlayResult::BoardIsFilled.is_success());
    assert!(!PlayResult::WrongBoard.is_success());
    assert!(!PlayResult::IndexError.is_success());
}

#[test]
fn slot_of_a_cell() {
    assert_eq!(Slot::from_cell(None), Slot::Empty);
    assert_eq!(Slot::from_cell(Some(Player::X)), Slot::Taken(Player::X));
    assert_eq!(Slot::from_cell(Some(Player::O)), Slot::Taken(Player::O));
}

#[test]
fn slot_of_a_small_board() {
    assert_eq!(Slot::from_board(None), Slot::Empty);
    assert_eq!(Slot::from_board(Some(FinishState::Win(Player::X))), Slot::Taken(Player::X));
    assert_eq!(Slot::from_board(Some(FinishState::Win(Player::O))), Slot::Taken(Player::O));
    assert_eq!(Slot::from_board(Some(FinishState::Draw)), Slot::Tied);
}

#[test]
fn empty_slots_have_no_finish() {
    let slots = [E; 9];
    assert_eq!(detect_finish(&slots), None);
    assert!(!player_has_line(&slots, Player::X));
    assert!(!player_has_line(&slots, Player::O));
    assert!(!no_slot_empty(&slots));
}

#[test]
fn each_line_alone_wins_for_its_player() {
    for player in [Player::X, Player::O] {
        for line in WINNING_LINES {
            let mut slots = [E; 9];
            for index in line {
                slots[index] = Slot::Taken(player);
            }
            assert_eq!(detect_finish(&slots), Some(FinishState::Win(player)));
            assert!(player_has_line(&slots, player));
        }
    }
}

#[test]
fn two_of_three_is_no_line() {
    for line in WINNING_LINES {
        for missing in 0..3 {
            let mut slots = [E; 9];
            for (k, index) in line.iter().enumerate() {
                if k != missing {
                    slots[*index] = X;
                }
            }
            assert_eq!(detect_finish(&slots), None);
        }
    }
}

#[test]
fn a_line_of_mixed_marks_is_no_line() {
    let slots = [X, O, X, E, E, E, E, E, E];
    assert_eq!(detect_finish(&slots), None);
}

#[test]
fn x_is_judged_before_o() {
    let slots = [X, X, X, O, O, O, E, E, E];
    assert_eq!(detect_finish(&slots), Some(FinishState::Win(Player::X)));
    let slots = [O, O, O, E, E, E, X, X, X];
    assert_eq!(detect_finish(&slots), Some(FinishState::Win(Player::X)));
}

#[test]
fn full_without_line_is_draw() {
    let slots = [X, O, X, X, O, O, O, X, X];
    assert!(no_slot_empty(&slots));
    assert!(!player_has_line(&slots, Player::X));
    assert!(!player_has_line(&slots, Player::O));
    assert_eq!(detect_finish(&slots), Some(FinishState::Draw));
}

#[test]
fn full_with_line_is_a_win_not_a_draw() {
    let slots = [X, X, X, O, O, X, X, O, O];
    assert_eq!(detect_finish(&slots), Some(FinishState::Win(Player::X)));
    let slots = [O, X, X, X, O, X, X, O, O];
    assert_eq!(detect_finish(&slots), Some(FinishState::Win(Player::O)));
}

#[test]
fn one_empty_slot_keeps_the_board_open() {
    let slots = [X, O, X, X, O, O, O, X, E];
    assert!(!no_slot_empty(&slots));
    assert_eq!(detect_finish(&slots), None);
}

#[test]
fn tied_slots_fill_the_board_but_belong_to_nobody() {
    let slots = [T; 9];
    assert!(no_slot_empty(&slots));
    assert!(!player_has_line(&slots, Player::X));
    assert!(!player_has_line(&slots, Player::O));
    assert_eq!(detect_finish(&slots), Some(FinishState::Draw));
    let slots = [X, X, T, E, E, E, E, E, E];
    assert_eq!(detect_finish(&slots), None);
    let slots = [T, O, X, X, T, O, O, X, T];
    assert_eq!(detect_finish(&slots), Some(FinishState::Draw));
    let slots = [T, T, T, O, O, O, T, T, E];
    assert_eq!(detect_finish(&slots), Some(FinishState::Win(Player::O)));
}
