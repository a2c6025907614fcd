//! The board as text.

use vstd::prelude::*;
use vstd::string::StringExecFns;
use crate::board::{GameState, Grid, SquareState};

verus! {

/// The character that stands for a square: a blank for an empty one, `X`
/// for a mark of `Player0`, `O` for a mark of `Player1`.
pub open spec fn glyph(square: SquareState) -> char {
    match square {
        SquareState::Empty => ' ',
        SquareState::Player0 => 'X',
        SquareState::Player1 => 'O',
    }
}

/// One row as a line of text: its three squares with a bar between them,
/// and a line feed at the end.
pub open spec fn row_text(row: Seq<SquareState>) -> Seq<char> {
    seq![glyph(row[0]), '|', glyph(row[1]), '|', glyph(row[2]), '\n']
}

/// The line that is drawn between two rows.
pub open spec fn rule_text() -> Seq<char> {
    seq!['-', '+', '-', '+', '-', '\n']
}

/// The picture of a grid: its three rows, with a rule between one row and
/// the next and none after the last.
pub open spec fn picture(g: Grid) -> Seq<char> {
    row_text(g[0]) + rule_text() + row_text(g[1]) + rule_text() + row_text(g[2])
}

impl SquareState {
    /// The square as text: one character.
    pub fn symbol(&self) -> (text: &'static str)
        ensures
            text@ == seq![glyph(*self)],
    {
        proof {
            reveal_strlit(" ");
            reveal_strlit("X");
            reveal_strlit("O");
        }
        let text = match self {
            SquareState::Empty => " ",
            SquareState::Player0 => "X",
            SquareState::Player1 => "O",
        };
        assert(text@ =~= seq![glyph(*self)]);
        text
    }
}

impl GameState {
    /// Writes row `row` of the board at the end of `out`.
    fn render_row(&self, row: usize, out: &mut String)
        requires
            row < 3,
        ensures
            final(out)@ == old(out)@ + row_text(self@[row as int]),
    {
        proof {
            reveal_strlit("|");
            reveal_strlit("\n");
        }
        out.append(self.get(row, 0).symbol());
        out.append("|");
        out.append(self.get(row, 1).symbol());
        out.append("|");
        out.append(self.get(row, 2).symbol());
        out.append("\n");
        assert(out@ =~= old(out)@ + row_text(self@[row as int]));
    }

    /// The board as text, ready to be shown.
    pub fn render(&self) -> (text: String)
        ensures
            text@ == picture(self@),
    {
        proof {
            reveal_strlit("-+-+-\n");
        }
        let mut text = String::new();
        self.render_row(0, &mut text);
        text.append("-+-+-\n");
        self.render_row(1, &mut text);
        text.append("-+-+-\n");
        self.render_row(2, &mut text);
        assert(text@ =~= picture(self@));
        text
    }
}

} // verus!
