//! What the players are told: how the board stands, the prompt before a
//! move, the reason why a move was turned down, and the result at the end;
//! and in which order they are told.

use vstd::prelude::*;
use vstd::string::StringExecFns;
use crate::board::{GameState, Grid, Player};
use crate::input::MoveError;
use crate::outcome::GameResult;
use crate::render::{glyph, picture};
use crate::session::{Phase, Position, Session};

verus! {

/// The report on a board: a heading, and below it the picture of the board.
pub open spec fn report_text(g: Grid) -> Seq<char> {
    "Current game state:\n"@ + picture(g)
}

/// The words that ask `player` for a move. The player is named by the
/// character of their mark.
pub open spec fn prompt_text(player: Player) -> Seq<char> {
    "Player "@ + seq![glyph(player.mark())]
        + " turn. Enter row and column (0-2) separated by space:"@
}

/// The words that tell why a move was turned down.
pub open spec fn objection_text(e: MoveError) -> Seq<char> {
    match e {
        MoveError::TokenCount => "Please enter two numbers separated by space"@,
        MoveError::Row => "Invalid row number. Must be 0, 1, or 2"@,
        MoveError::Column => "Invalid column number. Must be 0, 1, or 2"@,
        MoveError::Taken => "That position is already taken. Try again."@,
    }
}

/// The words that tell how the game ended. The winner is named by number.
pub open spec fn result_text(result: GameResult) -> Seq<char> {
    match result {
        GameResult::Win0 => "Player 0 wins!"@,
        GameResult::Win1 => "Player 1 wins!"@,
        GameResult::Draw => "Draw!"@,
    }
}

impl GameState {
    /// The report that shows the players how the board stands.
    pub fn report(&self) -> (text: String)
        ensures
            text@ == report_text(self@),
    {
        let mut text = String::from_str("Current game state:\n");
        text.append(self.render().as_str());
        text
    }
}

impl Player {
    /// The prompt that asks this player for a move.
    pub fn prompt(&self) -> (text: String)
        ensures
            text@ == prompt_text(*self),
    {
        let mut text = String::from_str("Player ");
        text.append(self.mark().symbol());
        text.append(" turn. Enter row and column (0-2) separated by space:");
        text
    }
}

impl MoveError {
    /// The message that tells the player what was wrong with the move.
    pub fn message(&self) -> (text: &'static str)
        ensures
            text@ == objection_text(*self),
    {
        match self {
            MoveError::TokenCount => "Please enter two numbers separated by space",
            MoveError::Row => "Invalid row number. Must be 0, 1, or 2",
            MoveError::Column => "Invalid column number. Must be 0, 1, or 2",
            MoveError::Taken => "That position is already taken. Try again.",
        }
    }
}

impl GameResult {
    /// The message that announces this result.
    pub fn announcement(&self) -> (text: &'static str)
        ensures
            text@ == result_text(*self),
    {
        match self {
            GameResult::Win0 => "Player 0 wins!",
            GameResult::Win1 => "Player 1 wins!",
            GameResult::Draw => "Draw!",
        }
    }
}

/// `text` as a line of its own: with a line feed after it.
pub open spec fn line_of(text: Seq<char>) -> Seq<char> {
    text + seq!['\n']
}

/// What the players are shown in a position. While the game is open, that is
/// the report on the board and the prompt for the player to move; once it is
/// over, the result.
pub open spec fn screen_text(pos: Position) -> Seq<char> {
    match pos.phase {
        Phase::AwaitingMove(player) => line_of(report_text(pos.grid)) + line_of(
            prompt_text(player),
        ),
        Phase::GameOver(result) => line_of(result_text(result)),
    }
}

/// What the players are shown when a request has been answered with
/// `answer` and has led to the position `pos`. After a request that was
/// turned down, that is the reason. After an accepted move it is the report
/// on the board as the move has left it, and then the screen of the new
/// position.
pub open spec fn response_text(pos: Position, answer: Result<Phase, MoveError>) -> Seq<char> {
    match answer {
        Err(e) => line_of(objection_text(e)),
        Ok(_) => line_of(report_text(pos.grid)) + screen_text(pos),
    }
}

impl Session {
    /// What the players are shown as the session stands.
    pub fn screen(&self) -> (text: String)
        ensures
            text@ == screen_text(self@),
    {
        proof {
            reveal_strlit("\n");
        }
        match self.phase() {
            Phase::AwaitingMove(player) => {
                let mut text = self.board().report();
                text.append("\n");
                text.append(player.prompt().as_str());
                text.append("\n");
                text
            },
            Phase::GameOver(result) => {
                let mut text = String::from_str(result.announcement());
                text.append("\n");
                text
            },
        }
    }

    /// What the players are shown when their last request has been answered
    /// with `answer`.
    pub fn response(&self, answer: Result<Phase, MoveError>) -> (text: String)
        ensures
            text@ == response_text(self@, answer),
    {
        proof {
            reveal_strlit("\n");
        }
        match answer {
            Err(e) => {
                let mut text = String::from_str(e.message());
                text.append("\n");
                text
            },
            Ok(_) => {
                let mut text = self.board().report();
                text.append("\n");
                text.append(self.screen().as_str());
                text
            },
        }
    }
}

} // verus!
