//! Tic-tac-toe for two players.
//!
//! - [`board`]: the 3x3 board, its squares and the two players.
//! - [`outcome`]: the verdict on a board: a win, a draw, or still open.
//! - [`render`]: the board as text.
//! - [`input`]: reading a move from a line of text.
//! - [`session`]: one game, move by move, with the players taking turns.
//! - [`messages`]: what the players are told.
//!
//! A front end owns a [`Session`]. It shows [`Session::screen`], and then,
//! until the game is over, hands each line it reads to [`Session::submit`]
//! and shows the [`Session::response`] to the answer.

pub mod board;
pub mod input;
pub mod messages;
pub mod outcome;
pub mod render;
pub mod session;

pub use board::{GameState, Player, SquareState};
pub use input::{parse_move, MoveError};
pub use outcome::GameResult;
pub use session::{Phase, Session};
