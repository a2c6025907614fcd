use tictactoe::board::Player;
use tictactoe::input::MoveError;
use tictactoe::outcome::GameResult;
use tictactoe::session::{Phase, Session};

const EMPTY: &str = "Current game state:\n | | \n-+-+-\n | | \n-+-+-\n | | \n\n";
const PROMPT_X: &str = "Player X turn. Enter row and column (0-2) separated by space:\n";
const PROMPT_O: &str = "Player O turn. Enter row and column (0-2) separated by space:\n";

/// Everything that is shown while `lines` are entered one after another.
fn transcript(lines: &[&str]) -> String {
    let mut session = Session::new();
    let mut shown = session.screen();
    for line in lines {
        let answer = session.submit(line);
        shown.push_str(&session.response(answer));
    }
    shown
}

#[test]
fn first_screen_shows_the_empty_board_and_asks_player0() {
    assert_eq!(Session::new().screen(), format!("{EMPTY}{PROMPT_X}"));
    assert_eq!(transcript(&[]), format!("{EMPTY}{PROMPT_X}"));
}

#[test]
fn rejected_line_shows_only_the_reason() {
    let mut session = Session::new();
    let answer = session.submit("a b");
    assert_eq!(answer, Err(MoveError::Row));
    assert_eq!(session.response(answer), "Invalid row number. Must be 0, 1, or 2\n");
    let answer = session.submit("1");
    assert_eq!(
        session.response(answer),
        "Please enter two numbers separated by space\n"
    );
    let answer = session.submit("1 7");
    assert_eq!(session.response(answer), "Invalid column number. Must be 0, 1, or 2\n");
    assert_eq!(session.submit("1 1"), Ok(Phase::AwaitingMove(Player::Player1)));
    let answer = session.submit("1 1");
    assert_eq!(session.response(answer), "That position is already taken. Try again.\n");
}

#[test]
fn accepted_move_shows_the_board_twice_and_asks_the_opponent() {
    let mut session = Session::new();
    let answer = session.submit("0 0");
    let board = "Current game state:\nX| | \n-+-+-\n | | \n-+-+-\n | | \n\n";
    assert_eq!(session.response(answer), format!("{board}{board}{PROMPT_O}"));
    assert_eq!(session.screen(), format!("{board}{PROMPT_O}"));
    let answer = session.submit("2 2");
    let board = "Current game state:\nX| | \n-+-+-\n | | \n-+-+-\n | |O\n\n";
    assert_eq!(session.response(answer), format!("{board}{board}{PROMPT_X}"));
}

#[test]
fn last_move_shows_the_board_and_the_result() {
    let mut session = Session::new();
    for line in ["0 0", "1 1", "0 1", "1 0"] {
        assert!(session.submit(line).is_ok());
    }
    let answer = session.submit("0 2");
    assert_eq!(answer, Ok(Phase::GameOver(GameResult::Win0)));
    assert_eq!(
        session.response(answer),
        "Current game state:\nX|X|X\n-+-+-\nO|O| \n-+-+-\n | | \n\nPlayer 0 wins!\n"
    );
    assert_eq!(session.screen(), "Player 0 wins!\n");
}

#[test]
fn transcript_of_a_short_game() {
    let shown = transcript(&["1 1\n", "1 1\n", "0 0\n", "x\n", "0 1\n", "2 0\n", "2 1\n"]);
    let after = [
        "Current game state:\n | | \n-+-+-\n |X| \n-+-+-\n | | \n\n",
        "Current game state:\nO| | \n-+-+-\n |X| \n-+-+-\n | | \n\n",
        "Current game state:\nO|X| \n-+-+-\n |X| \n-+-+-\n | | \n\n",
        "Current game state:\nO|X| \n-+-+-\n |X| \n-+-+-\nO| | \n\n",
        "Current game state:\nO|X| \n-+-+-\n |X| \n-+-+-\nO|X| \n\n",
    ];
    let mut expected = format!("{EMPTY}{PROMPT_X}");
    expected.push_str(&format!("{0}{0}{PROMPT_O}", after[0]));
    expected.push_str("That position is already taken. Try again.\n");
    expected.push_str(&format!("{0}{0}{PROMPT_X}", after[1]));
    expected.push_str("Please enter two numbers separated by space\n");
    expected.push_str(&format!("{0}{0}{PROMPT_O}", after[2]));
    expected.push_str(&format!("{0}{0}{PROMPT_X}", after[3]));
    expected.push_str(after[4]);
    expected.push_str("Player 0 wins!\n");
    assert_eq!(shown, expected);
}

#[test]
fn transcript_of_a_draw_ends_with_draw() {
    let shown = transcript(&["0 0", "0 2", "0 1", "1 0", "1 2", "1 1", "2 0", "2 1", "2 2"]);
    assert!(shown.ends_with(
        "Current game state:\nX|X|O\n-+-+-\nO|O|X\n-+-+-\nX|O|X\n\nDraw!\n"
    ));
    assert_eq!(shown.matches("Player X turn.").count(), 5);
    assert_eq!(shown.matches("Player O turn.").count(), 4);
    assert_eq!(shown.matches("Current game state:").count(), 18);
}

#[test]
fn player1_win_is_announced_by_number() {
    let shown = transcript(&["0 0", "1 1", "0 1", "0 2", "2 2", "2 0"]);
    assert!(shown.ends_with("Player 1 wins!\n"));
}
