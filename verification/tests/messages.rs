use tictactoe::board::{GameState, Player};
use tictactoe::input::MoveError;
use tictactoe::outcome::GameResult;

#[test]
fn prompt_names_the_player_by_mark() {
    assert_eq!(
        Player::Player0.prompt(),
        "Player X turn. Enter row and column (0-2) separated by space:"
    );
    assert_eq!(
        Player::Player1.prompt(),
        "Player O turn. Enter row and column (0-2) separated by space:"
    );
}

#[test]
fn message_for_each_error() {
    assert_eq!(MoveError::TokenCount.message(), "Please enter two numbers separated by space");
    assert_eq!(MoveError::Row.message(), "Invalid row number. Must be 0, 1, or 2");
    assert_eq!(MoveError::Column.message(), "Invalid column number. Must be 0, 1, or 2");
    assert_eq!(MoveError::Taken.message(), "That position is already taken. Try again.");
}

#[test]
fn announcement_for_each_result() {
    assert_eq!(GameResult::Win0.announcement(), "Player 0 wins!");
    assert_eq!(GameResult::Win1.announcement(), "Player 1 wins!");
    assert_eq!(GameResult::Draw.announcement(), "Draw!");
}

#[test]
fn report_shows_the_board_under_a_heading() {
    let mut board = GameState::new();
    assert_eq!(board.report(), "Current game state:\n | | \n-+-+-\n | | \n-+-+-\n | | \n");
    board.set(1, 1, Player::Player0);
    board.set(0, 2, Player::Player1);
    assert_eq!(board.report(), "Current game state:\n | |O\n-+-+-\n |X| \n-+-+-\n | | \n");
}
