//! The board as text, ready to be shown.

use vstd::prelude::*;
use vstd::string::StringExecFns;
use crate::board::{Board, Grid};

verus! {

/// The line above the picture.
pub open spec fn heading() -> Seq<char> {
    "Current Board:\n"@
}

/// The line that is drawn above, between and below the rows.
pub open spec fn rule() -> Seq<char> {
    " - - -\n"@
}

/// A row as a line of text: a bar, then each cell followed by a bar.
pub open spec fn row_line(row: Seq<Seq<char>>) -> Seq<char> {
    "|"@ + row[0] + "|"@ + row[1] + "|"@ + row[2] + "|"@ + "\n"@
}

/// The picture of a board: the heading, then the three rows, each between
/// two rules.
pub open spec fn picture(g: Grid) -> Seq<char> {
    heading() + rule() + row_line(g[0]) + rule() + row_line(g[1]) + rule() + row_line(g[2])
        + rule()
}

/// Draws one row of the board.
fn draw_row(board: &Board, r: usize) -> (line: String)
    requires
        board.wf(),
        r < 3,
    ensures
        line@ == row_line(board@[r as int]),
{
    let mut line = String::from_str("|");
    line.append(board.cell(r, 0).as_str());
    line.append("|");
    line.append(board.cell(r, 1).as_str());
    line.append("|");
    line.append(board.cell(r, 2).as_str());
    line.append("|");
    line.append("\n");
    line
}

/// Draws the board.
pub fn draw(board: &Board) -> (text: String)
    requires
        board.wf(),
    ensures
        text@ == picture(board@),
{
    let mut text = String::from_str("Current Board:\n");
    text.append(" - - -\n");
    text.append(draw_row(board, 0).as_str());
    text.append(" - - -\n");
    text.append(draw_row(board, 1).as_str());
    text.append(" - - -\n");
    text.append(draw_row(board, 2).as_str());
    text.append(" - - -\n");
    text
}

} // verus!
