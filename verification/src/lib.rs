//! Rules engine for Ultimate Tic-Tac-Toe: a large board of nine small
//! Tic-Tac-Toe boards, where winning a small board claims its place on the
//! large one and the cell of each move names the small board that the
//! opponent has to play on next.
//!
//! The engine judges moves and nothing else: whose turn it is, is the
//! caller's business.

pub mod board;
pub mod finish;
pub mod outcome;
pub mod position;
pub mod tictactoe;
pub mod ultimatettt;

pub use board::Board;
pub use outcome::{FinishState, PlayResult, Player};
pub use position::{BoardPosition, WINNING_LINES};
pub use tictactoe::TTTBoard;
pub use ultimatettt::{UTTTBoard, UTTTMove};
