//! The three-by-three board and the texts that stand in its cells.
//!
//! A cell holds a text: one blank until a side takes the cell, and from
//! then on the mark of that side. The computer's mark is X or O; the
//! human's is the text that the human chose to play, whatever it is.

use vstd::prelude::*;
use vstd::string::StringExecFns;

verus! {

/// The board as a value of mathematics: rows of cells, each cell a text.
pub type Grid = Seq<Seq<Seq<char>>>;

/// The text of a cell that nobody has taken.
pub open spec fn blank() -> Seq<char> {
    seq![' ']
}

/// The text of the mark X.
pub open spec fn mark_x() -> Seq<char> {
    seq!['X']
}

/// The text of the mark O.
pub open spec fn mark_o() -> Seq<char> {
    seq!['O']
}

/// The blank, the mark X and the mark O are three different texts.
pub proof fn lemma_texts_differ()
    ensures
        blank() != mark_x(),
        blank() != mark_o(),
        mark_x() != mark_o(),
{
    assert(blank()[0] == ' ');
    assert(mark_x()[0] == 'X');
    assert(mark_o()[0] == 'O');
}

/// Three rows of three cells.
pub open spec fn is_grid(g: Grid) -> bool {
    &&& g.len() == 3
    &&& forall|r: int| 0 <= r < 3 ==> (#[trigger] g[r]).len() == 3
}

/// The grid in which every cell is blank.
pub open spec fn empty_grid() -> Grid {
    Seq::new(3, |r: int| Seq::new(3, |c: int| blank()))
}

/// The grid `g` with `mark` written into the cell at row `r`, column `c`.
pub open spec fn with_mark(g: Grid, r: int, c: int, mark: Seq<char>) -> Grid {
    g.update(r, g[r].update(c, mark))
}

/// Whether some cell of the grid is blank.
pub open spec fn has_blank_cell(g: Grid) -> bool {
    exists|r: int, c: int| 0 <= r < 3 && 0 <= c < 3 && #[trigger] g[r][c] == blank()
}

/// What a vector of rows holds, text by text.
pub open spec fn texts_of(rows: Seq<Vec<String>>) -> Grid {
    Seq::new(rows.len(), |r: int| Seq::new(rows[r]@.len(), |c: int| rows[r]@[c]@))
}

/// What stands in a cell, as far as the rules tell cells apart: nothing
/// yet, or one of the two marks that can win.
#[derive(Clone, Copy, Debug, PartialEq, Eq, Structural)]
pub enum Mark {
    Empty,
    X,
    O,
}

impl Mark {
    /// The text that shows the mark.
    pub open spec fn text(self) -> Seq<char> {
        match self {
            Mark::Empty => blank(),
            Mark::X => mark_x(),
            Mark::O => mark_o(),
        }
    }

    /// The mark that `text` shows, if it shows one.
    pub open spec fn shown_by(text: Seq<char>) -> Option<Mark> {
        if text == blank() {
            Some(Mark::Empty)
        } else if text == mark_x() {
            Some(Mark::X)
        } else if text == mark_o() {
            Some(Mark::O)
        } else {
            None
        }
    }

    /// A fresh text that shows the mark.
    pub fn to_text(self) -> (s: String)
        ensures
            s@ == self.text(),
    {
        let s = match self {
            Mark::Empty => String::from_str(" "),
            Mark::X => String::from_str("X"),
            Mark::O => String::from_str("O"),
        };
        proof {
            reveal_strlit(" ");
            reveal_strlit("X");
            reveal_strlit("O");
            assert(s@ =~= self.text());
        }
        s
    }

    /// The mark that `text` shows, or `None` where it is some other text.
    pub fn read(text: &String) -> (m: Option<Mark>)
        ensures
            m == Mark::shown_by(text@),
    {
        if *text == Mark::Empty.to_text() {
            Some(Mark::Empty)
        } else if *text == Mark::X.to_text() {
            Some(Mark::X)
        } else if *text == Mark::O.to_text() {
            Some(Mark::O)
        } else {
            None
        }
    }
}

/// A board of three rows of three cells, stored row by row.
pub struct Board {
    cells: Vec<Vec<String>>,
}

impl View for Board {
    type V = Grid;

    closed spec fn view(&self) -> Grid {
        texts_of(self.cells@)
    }
}

impl Board {
    /// The board has three rows of three cells.
    pub closed spec fn wf(&self) -> bool {
        &&& self.cells@.len() == 3
        &&& forall|r: int| 0 <= r < 3 ==> (#[trigger] self.cells@[r])@.len() == 3
    }

    /// A well-formed board shows a grid.
    pub proof fn lemma_view_is_grid(&self)
        requires
            self.wf(),
        ensures
            is_grid(self@),
    {
    }

    /// The board on which every cell is blank.
    pub fn new() -> (b: Board)
        ensures
            b.wf(),
            b@ == empty_grid(),
    {
        let mut cells: Vec<Vec<String>> = Vec::new();
        let mut r: usize = 0;
        while r < 3
            invariant
                r <= 3,
                cells@.len() == r,
                forall|k: int| 0 <= k < r ==> (#[trigger] cells@[k])@.len() == 3,
                forall|k: int, c: int|
                    0 <= k < r && 0 <= c < 3 ==> (#[trigger] cells@[k]@[c])@ == blank(),
            decreases 3 - r,
        {
            let mut row: Vec<String> = Vec::new();
            let mut c: usize = 0;
            while c < 3
                invariant
                    c <= 3,
                    row@.len() == c,
                    forall|k: int| 0 <= k < c ==> (#[trigger] row@[k])@ == blank(),
                decreases 3 - c,
            {
                row.push(Mark::Empty.to_text());
                c = c + 1;
            }
            cells.push(row);
            r = r + 1;
        }
        let b = Board { cells };
        assert(b@ =~~= empty_grid());
        b
    }

    /// The board that holds the given rows, where they are three rows of
    /// three cells; `None` for any other shape.
    pub fn from_rows(rows: Vec<Vec<String>>) -> (b: Option<Board>)
        ensures
            b is Some <==> is_grid(texts_of(rows@)),
            b is Some ==> b->0.wf() && b->0@ == texts_of(rows@),
    {
        if rows.len() != 3 {
            return None;
        }
        let mut r: usize = 0;
        while r < 3
            invariant
                r <= 3,
                rows@.len() == 3,
                forall|k: int| 0 <= k < r ==> (#[trigger] rows@[k])@.len() == 3,
            decreases 3 - r,
        {
            if rows[r].len() != 3 {
                assert(texts_of(rows@)[r as int].len() != 3);
                return None;
            }
            r = r + 1;
        }
        Some(Board { cells: rows })
    }

    /// The text in the cell at row `r`, column `c`.
    pub fn cell(&self, r: usize, c: usize) -> (s: &String)
        requires
            self.wf(),
            r < 3,
            c < 3,
        ensures
            s@ == self@[r as int][c as int],
    {
        &self.cells[r][c]
    }

    /// A copy of the board's rows.
    pub fn rows(&self) -> (rows: Vec<Vec<String>>)
        requires
            self.wf(),
        ensures
            texts_of(rows@) == self@,
    {
        let mut rows: Vec<Vec<String>> = Vec::new();
        let mut r: usize = 0;
        while r < 3
            invariant
                self.wf(),
                r <= 3,
                rows@.len() == r,
                forall|k: int| 0 <= k < r ==> (#[trigger] rows@[k])@.len() == 3,
                forall|k: int, c: int|
                    0 <= k < r && 0 <= c < 3 ==> (#[trigger] rows@[k]@[c])@ == self@[k][c],
            decreases 3 - r,
        {
            let mut row: Vec<String> = Vec::new();
            let mut c: usize = 0;
            while c < 3
                invariant
                    self.wf(),
                    r < 3,
                    c <= 3,
                    row@.len() == c,
                    forall|k: int| 0 <= k < c ==> (#[trigger] row@[k])@ == self@[r as int][k],
                decreases 3 - c,
            {
                row.push(self.cells[r][c].clone());
                c = c + 1;
            }
            rows.push(row);
            r = r + 1;
        }
        assert(texts_of(rows@) =~~= self@);
        rows
    }

    /// The mark in the cell at row `r`, column `c`, or `None` where the
    /// cell holds some other text.
    pub fn mark_at(&self, r: usize, c: usize) -> (m: Option<Mark>)
        requires
            self.wf(),
            r < 3,
            c < 3,
        ensures
            m == Mark::shown_by(self@[r as int][c as int]),
    {
        Mark::read(&self.cells[r][c])
    }

    /// Whether the cells at (`r`, `c`) and (`r2`, `c2`) hold the same text.
    pub fn same(&self, r: usize, c: usize, r2: usize, c2: usize) -> (b: bool)
        requires
            self.wf(),
            r < 3,
            c < 3,
            r2 < 3,
            c2 < 3,
        ensures
            b == (self@[r as int][c as int] == self@[r2 as int][c2 as int]),
    {
        self.cells[r][c] == self.cells[r2][c2]
    }

    /// Whether nobody has taken the cell at row `r`, column `c`.
    pub fn is_blank(&self, r: usize, c: usize) -> (b: bool)
        requires
            self.wf(),
            r < 3,
            c < 3,
        ensures
            b == (self@[r as int][c as int] == blank()),
    {
        self.cells[r][c] == Mark::Empty.to_text()
    }

    /// Whether some cell is left for a mark.
    pub fn has_blank(&self) -> (b: bool)
        requires
            self.wf(),
        ensures
            b == has_blank_cell(self@),
    {
        let mut r: usize = 0;
        while r < 3
            invariant
                self.wf(),
                r <= 3,
                forall|k: int, c: int| 0 <= k < r && 0 <= c < 3 ==> #[trigger] self@[k][c] != blank(),
            decreases 3 - r,
        {
            let mut c: usize = 0;
            while c < 3
                invariant
                    self.wf(),
                    r < 3,
                    c <= 3,
                    forall|k: int, c: int|
                        0 <= k < r && 0 <= c < 3 ==> #[trigger] self@[k][c] != blank(),
                    forall|k: int| 0 <= k < c ==> #[trigger] self@[r as int][k] != blank(),
                decreases 3 - c,
            {
                if self.is_blank(r, c) {
                    return true;
                }
                c = c + 1;
            }
            r = r + 1;
        }
        false
    }

    /// Writes `mark` into the cell at row `r`, column `c`, whatever it held.
    pub fn put(&mut self, r: usize, c: usize, mark: String)
        requires
            old(self).wf(),
            r < 3,
            c < 3,
        ensures
            final(self).wf(),
            final(self)@ == with_mark(old(self)@, r as int, c as int, mark@),
    {
        self.cells[r][c] = mark;
        assert(self@ =~~= with_mark(old(self)@, r as int, c as int, mark@));
    }
}

} // verus!
