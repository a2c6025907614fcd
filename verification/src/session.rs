//! One game from the empty board to its end: whose turn it is, which moves
//! are accepted, and when the game is over.

use vstd::prelude::*;
use crate::board::{
    GameState, Grid, Player, SquareState, empty_grid, is_grid, lemma_place_adds_a_mark,
    lemma_place_changes_one_square, marks, on_board, place,
};
use crate::input::{MoveError, parse_move, requested};
use crate::outcome::{
    GameResult, along, completed, holds_line, is_full, lemma_nine_marks_end_the_game,
    lemma_open_board_has_no_line, lemma_undecided, line_count, outcome,
};

verus! {

/// Where a game stands.
#[derive(Clone, Copy, Debug, PartialEq, Eq, Structural)]
pub enum Phase {
    /// The game is open, and this player moves next.
    AwaitingMove(Player),
    /// The game has ended with this result.
    GameOver(GameResult),
}

/// The player who makes move number `n`, counted from 0: `Player0` the even
/// moves, `Player1` the odd ones.
pub open spec fn turn_of(n: nat) -> Player {
    if n % 2 == 0 {
        Player::Player0
    } else {
        Player::Player1
    }
}

/// The phase that follows once `mover` has moved and the board shows `g`:
/// the game is over if `g` has a verdict, else the opponent moves next.
pub open spec fn phase_after(g: Grid, mover: Player) -> Phase {
    match outcome(g) {
        Some(result) => Phase::GameOver(result),
        None => Phase::AwaitingMove(mover.other()),
    }
}

/// The mathematical model of a session: the board and the phase.
pub struct Position {
    pub grid: Grid,
    pub phase: Phase,
}

impl Position {
    /// The position from which every game starts: an empty board, and
    /// `Player0` moves.
    pub open spec fn start() -> Position {
        Position { grid: empty_grid(), phase: Phase::AwaitingMove(Player::Player0) }
    }

    /// Board and phase agree. While the game is open the board has no
    /// verdict, and the number of marks on it tells whose turn it is. Once
    /// the game is over, its result is the verdict on the board.
    pub open spec fn consistent(self) -> bool {
        &&& is_grid(self.grid)
        &&& match self.phase {
            Phase::AwaitingMove(player) => outcome(self.grid) is None && player == turn_of(
                marks(self.grid),
            ),
            Phase::GameOver(result) => outcome(self.grid) == Some(result),
        }
    }

    /// Why the move to `(row, col)` is turned down, if it is. The row is
    /// examined first, then the column, then the square.
    pub open spec fn objection(self, row: int, col: int) -> Option<MoveError> {
        if !(0 <= row < 3) {
            Some(MoveError::Row)
        } else if !(0 <= col < 3) {
            Some(MoveError::Column)
        } else if self.grid[row][col] != SquareState::Empty {
            Some(MoveError::Taken)
        } else {
            None
        }
    }

    /// The position after a move to `(row, col)` was asked for. An accepted
    /// move puts the mover's mark on that square and leaves all others as
    /// they were. A move that is turned down changes nothing, nor does any
    /// move once the game is over.
    pub open spec fn after_move(self, row: int, col: int) -> Position {
        match self.phase {
            Phase::AwaitingMove(mover) => if self.objection(row, col) is None {
                let grid = place(self.grid, row, col, mover.mark());
                Position { grid, phase: phase_after(grid, mover) }
            } else {
                self
            },
            Phase::GameOver(_) => self,
        }
    }

    /// The position after `line` was entered: that after the move which the
    /// line asks for, and the same position if it asks for none.
    pub open spec fn after_line(self, line: Seq<char>) -> Position {
        match requested(line) {
            Ok(square) => self.after_move(square.0, square.1),
            Err(_) => self,
        }
    }

    /// The answer to a move to `(row, col)`: the objection if there is one,
    /// else the phase that the move leads to. Once the game is over, the
    /// answer to every move is the final phase.
    pub open spec fn answer_to_move(self, row: int, col: int) -> Result<Phase, MoveError> {
        match self.phase {
            Phase::GameOver(_) => Ok(self.phase),
            Phase::AwaitingMove(_) => match self.objection(row, col) {
                Some(e) => Err(e),
                None => Ok(self.after_move(row, col).phase),
            },
        }
    }

    /// The answer to `line`: what is wrong with the line if it asks for no
    /// move, else the answer to the move it asks for. Once the game is
    /// over, the answer to every line is the final phase.
    pub open spec fn answer_to_line(self, line: Seq<char>) -> Result<Phase, MoveError> {
        match self.phase {
            Phase::GameOver(_) => Ok(self.phase),
            Phase::AwaitingMove(_) => match requested(line) {
                Ok(square) => self.answer_to_move(square.0, square.1),
                Err(e) => Err(e),
            },
        }
    }
}

/// A session: the board of one game and the phase the game is in.
pub struct Session {
    board: GameState,
    phase: Phase,
}

impl Session {
    /// The session as a position.
    pub closed spec fn view(&self) -> Position {
        Position { grid: self.board@, phase: self.phase }
    }

    /// A new game: the board is empty and `Player0` moves.
    pub fn new() -> (fresh: Session)
        ensures
            fresh@ == Position::start(),
            fresh@.consistent(),
    {
        proof {
            lemma_start_consistent();
        }
        Session { board: GameState::new(), phase: Phase::AwaitingMove(Player::Player0) }
    }

    /// The phase the game is in.
    pub fn phase(&self) -> (phase: Phase)
        ensures
            phase == self@.phase,
    {
        self.phase
    }

    /// The board as it stands.
    pub fn board(&self) -> (board: &GameState)
        ensures
            board@ == self@.grid,
    {
        &self.board
    }

    /// The player to move asks for square `(row, col)`. If the row and the
    /// column are on the board and the square is empty, the move is made
    /// and the answer is the phase that follows: the game is over if the
    /// board now has a verdict, else the opponent moves. Otherwise the
    /// answer says what is wrong, and nothing changes. Once the game is
    /// over nothing changes either, and the answer is the final phase.
    pub fn play(&mut self, row: usize, col: usize) -> (res: Result<Phase, MoveError>)
        requires
            old(self)@.consistent(),
        ensures
            final(self)@ == old(self)@.after_move(row as int, col as int),
            res == old(self)@.answer_to_move(row as int, col as int),
            res is Err ==> final(self)@ == old(self)@,
            final(self)@.consistent(),
    {
        let mover = match self.phase {
            Phase::AwaitingMove(player) => player,
            Phase::GameOver(_) => {
                return Ok(self.phase);
            },
        };
        if row >= 3 {
            return Err(MoveError::Row);
        }
        if col >= 3 {
            return Err(MoveError::Column);
        }
        if self.board.get(row, col) != SquareState::Empty {
            return Err(MoveError::Taken);
        }
        proof {
            lemma_move_keeps_consistent(self@, row as int, col as int);
        }
        self.board.set(row, col, mover);
        self.phase = match self.board.check_result() {
            Some(result) => Phase::GameOver(result),
            None => Phase::AwaitingMove(mover.other()),
        };
        Ok(self.phase)
    }

    /// The player to move enters `line`. If the line asks for a move and
    /// the move is accepted, it is made, and the answer is the phase that
    /// follows. Otherwise the answer says what is wrong, nothing changes,
    /// and the same player is still to move. Once the game is over nothing
    /// changes either, and the answer is the final phase.
    pub fn submit(&mut self, line: &str) -> (res: Result<Phase, MoveError>)
        requires
            old(self)@.consistent(),
        ensures
            final(self)@ == old(self)@.after_line(line@),
            res == old(self)@.answer_to_line(line@),
            res is Err ==> final(self)@ == old(self)@,
            final(self)@.consistent(),
    {
        if let Phase::GameOver(_) = self.phase {
            return Ok(self.phase);
        }
        match parse_move(line) {
            Ok((row, col)) => self.play(row, col),
            Err(e) => Err(e),
        }
    }
}

/// The game starts in a consistent position: the empty board has no
/// verdict, and with no mark on it `Player0` moves.
pub proof fn lemma_start_consistent()
    ensures
        Position::start().consistent(),
        marks(empty_grid()) == 0,
{
    let g = empty_grid();
    assert(g[0][0] == SquareState::Empty);
    assert(!is_full(g));
    assert forall|k: int| 0 <= k < line_count() implies !completed(g, k) by {
        assert(along(g, k, 0) == SquareState::Empty);
    }
    lemma_undecided(g);
}

/// Whatever move is asked for in a consistent position, the position that
/// follows is consistent too.
pub proof fn lemma_move_keeps_consistent(pos: Position, row: int, col: int)
    requires
        pos.consistent(),
    ensures
        pos.after_move(row, col).consistent(),
{
    if let Phase::AwaitingMove(mover) = pos.phase {
        if pos.objection(row, col) is None {
            lemma_place_changes_one_square(pos.grid, row, col, mover.mark());
            lemma_place_adds_a_mark(pos.grid, row, col, mover.mark());
        }
    }
}

/// A request that is not accepted changes nothing: not the board, and not
/// whose turn it is. That holds of a move that meets an objection, of any
/// move once the game is over, and of a line that asks for no move.
pub proof fn lemma_rejected_changes_nothing(pos: Position, row: int, col: int, line: Seq<char>)
    ensures
        pos.objection(row, col) is Some ==> pos.after_move(row, col) == pos,
        pos.phase is GameOver ==> pos.after_move(row, col) == pos,
        requested(line) is Err ==> pos.after_line(line) == pos,
        pos.answer_to_line(line) is Err ==> pos.after_line(line) == pos,
{
}

/// The position reached from the start when the moves `asked` are asked
/// for one after another, accepted or not.
pub open spec fn replay(asked: Seq<(int, int)>) -> Position
    decreases asked.len(),
{
    if asked.len() == 0 {
        Position::start()
    } else {
        replay(asked.drop_last()).after_move(asked.last().0, asked.last().1)
    }
}

/// The number of moves among `asked` that were accepted when they are
/// asked for one after another from the start.
pub open spec fn accepted(asked: Seq<(int, int)>) -> nat
    decreases asked.len(),
{
    if asked.len() == 0 {
        0
    } else {
        let before = replay(asked.drop_last());
        let last = asked.last();
        if before.phase is AwaitingMove && before.objection(last.0, last.1) is None {
            accepted(asked.drop_last()) + 1
        } else {
            accepted(asked.drop_last())
        }
    }
}

/// Every position of a game is consistent, and the marks on its board are
/// as many as the moves that were accepted.
pub proof fn lemma_replay_consistent(asked: Seq<(int, int)>)
    ensures
        replay(asked).consistent(),
        marks(replay(asked).grid) == accepted(asked),
    decreases asked.len(),
{
    if asked.len() == 0 {
        lemma_start_consistent();
    } else {
        let before = replay(asked.drop_last());
        let last = asked.last();
        lemma_replay_consistent(asked.drop_last());
        lemma_move_keeps_consistent(before, last.0, last.1);
        if let Phase::AwaitingMove(mover) = before.phase {
            if before.objection(last.0, last.1) is None {
                lemma_place_adds_a_mark(before.grid, last.0, last.1, mover.mark());
            }
        }
    }
}

/// Turn order. When `n` moves have been accepted in a game and the game is
/// still open, the player to move is `Player0` if `n` is even and `Player1`
/// if `n` is odd; and if the move to `(row, col)` is then accepted, that
/// player's mark is what it leaves on the square.
pub proof fn lemma_turn_order(asked: Seq<(int, int)>, row: int, col: int)
    requires
        replay(asked).phase is AwaitingMove,
    ensures
        replay(asked).phase == Phase::AwaitingMove(turn_of(accepted(asked))),
        replay(asked).objection(row, col) is None ==> replay(asked).after_move(
            row,
            col,
        ).grid[row][col] == turn_of(accepted(asked)).mark(),
{
    lemma_replay_consistent(asked);
    let pos = replay(asked);
    if pos.objection(row, col) is None {
        lemma_place_changes_one_square(pos.grid, row, col, turn_of(accepted(asked)).mark());
    }
}

/// A mark, once placed, stays: whatever move is asked for, every square
/// that carries a mark carries the same mark afterwards.
pub proof fn lemma_marks_stay(pos: Position, row: int, col: int)
    requires
        is_grid(pos.grid),
    ensures
        forall|r: int, c: int|
            on_board(r, c) && pos.grid[r][c] != SquareState::Empty ==> pos.after_move(
                row,
                col,
            ).grid[r][c] == pos.grid[r][c],
{
    if let Phase::AwaitingMove(mover) = pos.phase {
        if pos.objection(row, col) is None {
            lemma_place_changes_one_square(pos.grid, row, col, mover.mark());
        }
    }
}

/// A game is over after nine accepted moves at the latest.
pub proof fn lemma_game_ends_within_nine_moves(asked: Seq<(int, int)>)
    ensures
        accepted(asked) <= 9,
        replay(asked).phase is AwaitingMove ==> accepted(asked) < 9,
{
    lemma_replay_consistent(asked);
    if replay(asked).phase is AwaitingMove && accepted(asked) >= 9 {
        lemma_nine_marks_end_the_game(replay(asked).grid);
    }
}

/// In a game the two players never both hold a completed line, so the
/// priority of the lines never decides between them.
pub proof fn lemma_one_winner(asked: Seq<(int, int)>, j: int, k: int)
    ensures
        !(holds_line(replay(asked).grid, j, Player::Player0) && holds_line(
            replay(asked).grid,
            k,
            Player::Player1,
        )),
    decreases asked.len(),
{
    if asked.len() == 0 {
        if 0 <= j < line_count() {
            assert(along(empty_grid(), j, 0) == SquareState::Empty);
        }
    } else {
        let before = replay(asked.drop_last());
        let (row, col) = asked.last();
        lemma_one_winner(asked.drop_last(), j, k);
        if let Phase::AwaitingMove(mover) = before.phase {
            if before.objection(row, col) is None {
                // No line was completed before the move, so a line that is
                // completed now runs through the new mark.
                lemma_replay_consistent(asked.drop_last());
                lemma_open_board_has_no_line(before.grid);
                lemma_place_changes_one_square(before.grid, row, col, mover.mark());
                assert(!completed(before.grid, j) && !completed(before.grid, k));
            }
        }
    }
}

} // verus!
