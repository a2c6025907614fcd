//! The verdict on a board: won by a player, drawn, or still open.

use vstd::prelude::*;
use crate::board::{GameState, Grid, Player, SquareState, marks, on_board};

verus! {

/// How a finished game ended.
#[derive(Clone, Copy, Debug, PartialEq, Eq, Structural)]
pub enum GameResult {
    Win0,
    Win1,
    Draw,
}

impl GameResult {
    /// The result in which `player` has won.
    pub open spec fn win(player: Player) -> GameResult {
        match player {
            Player::Player0 => GameResult::Win0,
            Player::Player1 => GameResult::Win1,
        }
    }
}

/// The number of lines on the board: three rows, three columns, two
/// diagonals.
pub open spec fn line_count() -> int {
    8
}

/// The square at position `i` (0, 1 or 2) of line `k`. Lines are numbered in
/// the order of their priority: 0 to 2 are the rows from top to bottom, 3 to
/// 5 the columns from left to right, 6 is the diagonal from the top left and
/// 7 the diagonal from the top right.
pub open spec fn line_square(k: int, i: int) -> (int, int) {
    if k < 3 {
        (k, i)
    } else if k < 6 {
        (i, k - 3)
    } else if k == 6 {
        (i, i)
    } else {
        (i, 2 - i)
    }
}

/// What `g` holds at position `i` of line `k`.
pub open spec fn along(g: Grid, k: int, i: int) -> SquareState {
    g[line_square(k, i).0][line_square(k, i).1]
}

/// All three squares of line `k` hold `player`'s mark.
pub open spec fn holds_line(g: Grid, k: int, player: Player) -> bool {
    &&& 0 <= k < line_count()
    &&& along(g, k, 0) == player.mark()
    &&& along(g, k, 1) == player.mark()
    &&& along(g, k, 2) == player.mark()
}

/// Line `k` is completed: one player holds all of it.
pub open spec fn completed(g: Grid, k: int) -> bool {
    holds_line(g, k, Player::Player0) || holds_line(g, k, Player::Player1)
}

/// Line `k` is completed by `player`, and no line of higher priority is
/// completed.
pub open spec fn decides(g: Grid, k: int, player: Player) -> bool {
    &&& holds_line(g, k, player)
    &&& forall|j: int| 0 <= j < k ==> !completed(g, j)
}

/// No square of `g` is empty.
pub open spec fn is_full(g: Grid) -> bool {
    forall|r: int, c: int| on_board(r, c) ==> (#[trigger] g[r][c]) != SquareState::Empty
}

/// The verdict on `g`. A completed line wins for the player who holds it;
/// where several lines are completed, the one of highest priority counts.
/// Without a completed line a full board is a draw, and any other board is
/// still open (`None`).
pub open spec fn outcome(g: Grid) -> Option<GameResult> {
    if exists|k: int| decides(g, k, Player::Player0) {
        Some(GameResult::Win0)
    } else if exists|k: int| decides(g, k, Player::Player1) {
        Some(GameResult::Win1)
    } else if is_full(g) {
        Some(GameResult::Draw)
    } else {
        None
    }
}

impl GameState {
    /// Whether the three squares `a`, `b` and `c` all hold `mark`.
    fn all_three(
        &self,
        a: (usize, usize),
        b: (usize, usize),
        c: (usize, usize),
        mark: SquareState,
    ) -> (yes: bool)
        requires
            on_board(a.0 as int, a.1 as int),
            on_board(b.0 as int, b.1 as int),
            on_board(c.0 as int, c.1 as int),
        ensures
            yes == (self@[a.0 as int][a.1 as int] == mark && self@[b.0 as int][b.1 as int] == mark
                && self@[c.0 as int][c.1 as int] == mark),
    {
        self.get(a.0, a.1) == mark && self.get(b.0, b.1) == mark && self.get(c.0, c.1) == mark
    }

    /// Whether no square is empty.
    fn full(&self) -> (yes: bool)
        ensures
            yes == is_full(self@),
    {
        let mut r: usize = 0;
        while r < 3
            invariant
                r <= 3,
                forall|i: int, c: int|
                    0 <= i < r && 0 <= c < 3 ==> (#[trigger] self@[i][c]) != SquareState::Empty,
            decreases 3 - r,
        {
            let mut c: usize = 0;
            while c < 3
                invariant
                    r < 3,
                    c <= 3,
                    forall|j: int|
                        0 <= j < c ==> (#[trigger] self@[r as int][j]) != SquareState::Empty,
                decreases 3 - c,
            {
                if self.get(r, c) == SquareState::Empty {
                    return false;
                }
                c += 1;
            }
            r += 1;
        }
        true
    }

    /// The verdict on the board as it stands: `Some` result once the game is
    /// decided, `None` while it is still open. The board is left as it is.
    pub fn check_result(&self) -> (res: Option<GameResult>)
        ensures
            res == outcome(self@),
    {
        let mut r: usize = 0;
        while r < 3
            invariant
                r <= 3,
                forall|j: int| 0 <= j < r ==> !completed(self@, j),
            decreases 3 - r,
        {
            if self.all_three((r, 0), (r, 1), (r, 2), SquareState::Player0) {
                proof {
                    lemma_decided(self@, r as int, Player::Player0);
                }
                return Some(GameResult::Win0);
            }
            if self.all_three((r, 0), (r, 1), (r, 2), SquareState::Player1) {
                proof {
                    lemma_decided(self@, r as int, Player::Player1);
                }
                return Some(GameResult::Win1);
            }
            r += 1;
        }
        let mut c: usize = 0;
        while c < 3
            invariant
                c <= 3,
                forall|j: int| 0 <= j < 3 + c ==> !completed(self@, j),
            decreases 3 - c,
        {
            if self.all_three((0, c), (1, c), (2, c), SquareState::Player0) {
                proof {
                    lemma_decided(self@, 3 + c as int, Player::Player0);
                }
                return Some(GameResult::Win0);
            }
            if self.all_three((0, c), (1, c), (2, c), SquareState::Player1) {
                proof {
                    lemma_decided(self@, 3 + c as int, Player::Player1);
                }
                return Some(GameResult::Win1);
            }
            c += 1;
        }
        if self.all_three((0, 0), (1, 1), (2, 2), SquareState::Player0) {
            proof {
                lemma_decided(self@, 6, Player::Player0);
            }
            return Some(GameResult::Win0);
        }
        if self.all_three((0, 0), (1, 1), (2, 2), SquareState::Player1) {
            proof {
                lemma_decided(self@, 6, Player::Player1);
            }
            return Some(GameResult::Win1);
        }
        if self.all_three((0, 2), (1, 1), (2, 0), SquareState::Player0) {
            proof {
                lemma_decided(self@, 7, Player::Player0);
            }
            return Some(GameResult::Win0);
        }
        if self.all_three((0, 2), (1, 1), (2, 0), SquareState::Player1) {
            proof {
                lemma_decided(self@, 7, Player::Player1);
            }
            return Some(GameResult::Win1);
        }
        proof {
            lemma_undecided(self@);
        }
        if self.full() {
            return Some(GameResult::Draw);
        }
        None
    }
}

/// If `player` has completed a line and no line of higher priority is
/// completed, then `player` has won.
pub proof fn lemma_decided(g: Grid, k: int, player: Player)
    requires
        decides(g, k, player),
    ensures
        outcome(g) == Some(GameResult::win(player)),
{
    // The rival cannot decide too: of two deciding lines neither comes before
    // the other, and one line cannot be held by both players.
    assert forall|j: int| !decides(g, j, player.other()) by {
        if decides(g, j, player.other()) {
            assert(completed(g, j) && completed(g, k));
        }
    }
}

/// Without a completed line the verdict depends only on whether an empty
/// square is left: a draw on a full board, and no verdict yet on any other.
pub proof fn lemma_undecided(g: Grid)
    requires
        forall|k: int| 0 <= k < line_count() ==> !completed(g, k),
    ensures
        is_full(g) ==> outcome(g) == Some(GameResult::Draw),
        !is_full(g) ==> outcome(g) == None::<GameResult>,
{
    assert forall|k: int, player: Player| !decides(g, k, player) by {
        if decides(g, k, player) {
            assert(completed(g, k));
        }
    }
}

/// The verdict depends on nothing but the squares: two boards that hold
/// the same in every square are the same grid and have the same verdict.
pub proof fn lemma_same_squares_same_verdict(a: GameState, b: GameState)
    requires
        forall|r: int, c: int| on_board(r, c) ==> a@[r][c] == b@[r][c],
    ensures
        a@ == b@,
        outcome(a@) == outcome(b@),
{
    assert forall|r: int| 0 <= r < 3 implies #[trigger] a@[r] =~= b@[r] by {
        assert forall|c: int| 0 <= c < 3 implies a@[r][c] == b@[r][c] by {
            assert(on_board(r, c));
        }
    }
    assert(a@ =~= b@);
}

/// A board with a mark on every one of its nine squares is full and has a
/// verdict, so no game goes on beyond the ninth move.
pub proof fn lemma_nine_marks_end_the_game(g: Grid)
    requires
        marks(g) >= 9,
    ensures
        is_full(g),
        outcome(g) is Some,
{
}

/// Where a line is completed, some line decides the game: the completed
/// line of highest priority.
pub proof fn lemma_some_line_decides(g: Grid, k: int)
    requires
        completed(g, k),
    ensures
        exists|j: int, player: Player| 0 <= j <= k && decides(g, j, player),
    decreases k,
{
    if exists|i: int| 0 <= i < k && completed(g, i) {
        let i = choose|i: int| 0 <= i < k && completed(g, i);
        lemma_some_line_decides(g, i);
    } else {
        let player = if holds_line(g, k, Player::Player0) {
            Player::Player0
        } else {
            Player::Player1
        };
        assert(decides(g, k, player));
    }
}

/// A board without a verdict has no completed line.
pub proof fn lemma_open_board_has_no_line(g: Grid)
    requires
        outcome(g) is None,
    ensures
        forall|k: int| !completed(g, k),
{
    assert forall|k: int| !completed(g, k) by {
        if completed(g, k) {
            lemma_some_line_decides(g, k);
        }
    }
}

} // verus!
