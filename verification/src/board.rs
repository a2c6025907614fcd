//! The 3x3 board, the marks on it, and the two players who place them.

use vstd::prelude::*;

verus! {

/// What one square of the board holds.
#[derive(Clone, Copy, Debug, PartialEq, Eq, Structural)]
pub enum SquareState {
    Empty,
    Player0,
    Player1,
}

/// One of the two players. `Player0` moves first.
#[derive(Clone, Copy, Debug, PartialEq, Eq, Structural)]
pub enum Player {
    Player0,
    Player1,
}

/// The mathematical model of a board: its rows from top to bottom, each row
/// from left to right.
pub type Grid = Seq<Seq<SquareState>>;

/// A grid has exactly three rows of exactly three squares.
pub open spec fn is_grid(g: Grid) -> bool {
    &&& g.len() == 3
    &&& forall|r: int| 0 <= r < 3 ==> (#[trigger] g[r]).len() == 3
}

/// The grid on which every square is empty.
pub open spec fn empty_grid() -> Grid {
    Seq::new(3, |r: int| Seq::new(3, |c: int| SquareState::Empty))
}

/// `(row, col)` names a square of the board.
pub open spec fn on_board(row: int, col: int) -> bool {
    0 <= row < 3 && 0 <= col < 3
}

/// The grid `g` with square `(row, col)` holding `mark` and every other
/// square as it was.
pub open spec fn place(g: Grid, row: int, col: int, mark: SquareState) -> Grid {
    g.update(row, g[row].update(col, mark))
}

/// 1 if square `(row, col)` of `g` carries a mark, else 0.
pub open spec fn occupied(g: Grid, row: int, col: int) -> nat {
    if g[row][col] == SquareState::Empty {
        0
    } else {
        1
    }
}

/// The number of marked squares in row `row` of `g`.
pub open spec fn marks_in_row(g: Grid, row: int) -> nat {
    occupied(g, row, 0) + occupied(g, row, 1) + occupied(g, row, 2)
}

/// The number of marked squares of `g`: the number of moves made on it.
pub open spec fn marks(g: Grid) -> nat {
    marks_in_row(g, 0) + marks_in_row(g, 1) + marks_in_row(g, 2)
}

/// Placing a mark changes the square it is placed on and no other: the
/// result is again a grid, holds `mark` at `(row, col)`, and holds at every
/// other square what `g` held there.
pub proof fn lemma_place_changes_one_square(g: Grid, row: int, col: int, mark: SquareState)
    requires
        is_grid(g),
        on_board(row, col),
    ensures
        is_grid(place(g, row, col, mark)),
        place(g, row, col, mark)[row][col] == mark,
        forall|r: int, c: int|
            on_board(r, c) && !(r == row && c == col) ==> place(g, row, col, mark)[r][c] == g[r][c],
{
}

/// A mark placed on an empty square adds one to the number of marks.
pub proof fn lemma_place_adds_a_mark(g: Grid, row: int, col: int, mark: SquareState)
    requires
        is_grid(g),
        on_board(row, col),
        g[row][col] == SquareState::Empty,
        mark != SquareState::Empty,
    ensures
        marks(place(g, row, col, mark)) == marks(g) + 1,
{
    lemma_place_changes_one_square(g, row, col, mark);
}

impl Player {
    /// The mark that this player leaves on a square.
    pub open spec fn spec_mark(self) -> SquareState {
        match self {
            Player::Player0 => SquareState::Player0,
            Player::Player1 => SquareState::Player1,
        }
    }

    /// The mark that this player leaves on a square.
    #[verifier::when_used_as_spec(spec_mark)]
    pub fn mark(self) -> (m: SquareState)
        ensures
            m == self.spec_mark(),
    {
        match self {
            Player::Player0 => SquareState::Player0,
            Player::Player1 => SquareState::Player1,
        }
    }

    /// The opponent.
    pub open spec fn spec_other(self) -> Player {
        match self {
            Player::Player0 => Player::Player1,
            Player::Player1 => Player::Player0,
        }
    }

    /// The opponent.
    #[verifier::when_used_as_spec(spec_other)]
    pub fn other(self) -> (p: Player)
        ensures
            p == self.spec_other(),
    {
        match self {
            Player::Player0 => Player::Player1,
            Player::Player1 => Player::Player0,
        }
    }
}

/// The board: three rows of three squares.
pub struct GameState {
    board: [[SquareState; 3]; 3],
}

impl GameState {
    /// The square in row `row` and column `col`.
    pub closed spec fn at(&self, row: int, col: int) -> SquareState {
        self.board[row][col]
    }

    /// The board as a grid.
    pub open spec fn view(&self) -> Grid {
        Seq::new(3, |r: int| Seq::new(3, |c: int| self.at(r, c)))
    }

    /// A board on which nobody has moved: every square is `Empty`.
    pub fn new() -> (fresh: GameState)
        ensures
            fresh@ == empty_grid(),
    {
        let fresh = GameState { board: [[SquareState::Empty; 3]; 3] };
        assert forall|r: int| 0 <= r < 3 implies #[trigger] fresh@[r] =~= empty_grid()[r] by {}
        assert(fresh@ =~= empty_grid());
        fresh
    }

    /// Reads one square. The board is left as it is.
    pub fn get(&self, row: usize, col: usize) -> (square: SquareState)
        requires
            on_board(row as int, col as int),
        ensures
            square == self@[row as int][col as int],
    {
        self.board[row][col]
    }

    /// Puts `player`'s mark on the empty square `(row, col)`. No other square
    /// changes.
    pub fn set(&mut self, row: usize, col: usize, player: Player)
        requires
            on_board(row as int, col as int),
            old(self)@[row as int][col as int] == SquareState::Empty,
        ensures
            final(self)@ == place(old(self)@, row as int, col as int, player.mark()),
            final(self)@[row as int][col as int] == player.mark(),
            forall|r: int, c: int|
                on_board(r, c) && !(r == row && c == col) ==> final(self)@[r][c] == old(
                    self,
                )@[r][c],
            marks(final(self)@) == marks(old(self)@) + 1,
    {
        self.board[row][col] = player.mark();
        proof {
            let after = place(old(self)@, row as int, col as int, player.mark());
            assert forall|r: int| 0 <= r < 3 implies #[trigger] self@[r] =~= after[r] by {}
            assert(self@ =~= after);
        }
    }
}

} // verus!
