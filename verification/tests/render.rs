use tictactoe::board::{GameState, Player, SquareState};

#[test]
fn symbols_of_the_squares() {
    assert_eq!(SquareState::Empty.symbol(), " ");
    assert_eq!(SquareState::Player0.symbol(), "X");
    assert_eq!(SquareState::Player1.symbol(), "O");
}

#[test]
fn render_empty_board() {
    let board = GameState::new();
    assert_eq!(board.render(), " | | \n-+-+-\n | | \n-+-+-\n | | \n");
}

#[test]
fn render_top_left_mark() {
    let mut board = GameState::new();
    board.set(0, 0, Player::Player0);
    assert_eq!(board.render(), "X| | \n-+-+-\n | | \n-+-+-\n | | \n");
}

#[test]
fn render_places_each_square() {
    let mut board = GameState::new();
    board.set(0, 2, Player::Player1);
    board.set(1, 0, Player::Player0);
    board.set(2, 1, Player::Player1);
    board.set(2, 2, Player::Player0);
    assert_eq!(board.render(), " | |O\n-+-+-\nX| | \n-+-+-\n |O|X\n");
}

#[test]
fn render_has_no_rule_after_the_last_row() {
    let text = GameState::new().render();
    assert_eq!(text.lines().count(), 5);
    assert!(text.ends_with(" | | \n"));
    assert_eq!(text.chars().count(), 30);
}
