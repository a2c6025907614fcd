use tictactoe::board::{GameState, Player};
use tictactoe::outcome::GameResult;

/// Builds a board from three rows of text: `X`, `O`, or `.` for empty.
fn board(rows: [&str; 3]) -> GameState {
    let mut built = GameState::new();
    for (r, row) in rows.iter().enumerate() {
        for (c, ch) in row.chars().enumerate() {
            match ch {
                'X' => built.set(r, c, Player::Player0),
                'O' => built.set(r, c, Player::Player1),
                '.' => {}
                other => panic!("unexpected square {other:?}"),
            }
        }
    }
    built
}

#[test]
fn empty_board_is_open() {
    assert_eq!(GameState::new().check_result(), None);
}

#[test]
fn each_row_wins() {
    assert_eq!(board(["XXX", "OO.", "..."]).check_result(), Some(GameResult::Win0));
    assert_eq!(board(["XX.", "OOO", "X.."]).check_result(), Some(GameResult::Win1));
    assert_eq!(board(["OO.", "...", "XXX"]).check_result(), Some(GameResult::Win0));
}

#[test]
fn each_column_wins() {
    assert_eq!(board(["OX.", "O.X", "OX."]).check_result(), Some(GameResult::Win1));
    assert_eq!(board(["OX.", ".XO", ".X."]).check_result(), Some(GameResult::Win0));
    assert_eq!(board(["X.O", "X.O", "..O"]).check_result(), Some(GameResult::Win1));
}

#[test]
fn each_diagonal_wins() {
    assert_eq!(board(["XO.", "OX.", "..X"]).check_result(), Some(GameResult::Win0));
    assert_eq!(board(["X.O", "XO.", "O.."]).check_result(), Some(GameResult::Win1));
}

#[test]
fn two_in_a_line_do_not_win() {
    assert_eq!(board(["XX.", "...", "..."]).check_result(), None);
    assert_eq!(board(["X..", "X..", "O.."]).check_result(), None);
    assert_eq!(board(["X..", ".X.", "..O"]).check_result(), None);
    assert_eq!(board(["XXO", "...", "..."]).check_result(), None);
}

#[test]
fn full_board_without_a_line_is_a_draw() {
    assert_eq!(board(["XXO", "OOX", "XOX"]).check_result(), Some(GameResult::Draw));
    assert_eq!(board(["XOX", "XOO", "OXX"]).check_result(), Some(GameResult::Draw));
}

#[test]
fn one_empty_square_without_a_line_is_open() {
    assert_eq!(board(["XXO", "OOX", "XO."]).check_result(), None);
    assert_eq!(board([".OX", "XOO", "OXX"]).check_result(), None);
}

#[test]
fn full_board_with_a_line_is_a_win() {
    assert_eq!(board(["XXX", "OOX", "XOO"]).check_result(), Some(GameResult::Win0));
    assert_eq!(board(["XOX", "XOX", "OOX"]).check_result(), Some(GameResult::Win1));
}

#[test]
fn upper_row_counts_before_lower_row() {
    assert_eq!(board(["OOO", "XXX", "..."]).check_result(), Some(GameResult::Win1));
    assert_eq!(board(["...", "XXX", "OOO"]).check_result(), Some(GameResult::Win0));
}

#[test]
fn left_column_counts_before_right_column() {
    assert_eq!(board(["O.X", "O.X", "O.X"]).check_result(), Some(GameResult::Win1));
    assert_eq!(board([".XO", ".XO", ".XO"]).check_result(), Some(GameResult::Win0));
}

#[test]
fn row_counts_before_column_and_diagonal() {
    // The middle row is X's; the left column would be X's too.
    assert_eq!(board(["XO.", "XXX", "XO."]).check_result(), Some(GameResult::Win0));
    // The bottom row is O's, and so is the diagonal from the top left.
    assert_eq!(board(["OX.", "XO.", "OOO"]).check_result(), Some(GameResult::Win1));
}

#[test]
fn column_counts_before_diagonal() {
    // The left column and the diagonal from the top left are both X's.
    assert_eq!(board(["XO.", "XXO", "X.X"]).check_result(), Some(GameResult::Win0));
}

#[test]
fn same_board_same_verdict() {
    let a = board(["XO.", "OX.", "..X"]);
    let b = board(["XO.", "OX.", "..X"]);
    assert_eq!(a.check_result(), b.check_result());
    assert_eq!(a.check_result(), a.check_result());
}

#[test]
fn check_result_does_not_change_the_board() {
    let b = board(["XO.", "OX.", "..X"]);
    let before = b.render();
    let _ = b.check_result();
    assert_eq!(b.render(), before);
}
