//! Finding out whether a mark has won.
//!
//! Around every cell lies a window: the cells at most two rows and two
//! columns away. A cell that holds X or O wins as soon as three cells of its
//! window hold the same mark. The cells are tried row by row, and the first
//! one that wins decides: `Win` for X, `Lose` for O.

use vstd::prelude::*;
use crate::board::{Board, Grid, Mark, is_grid, lemma_texts_differ, mark_o, mark_x};
use crate::status::GameResult;

verus! {

/// The row part of the `k`-th step of the window, from -2 to 2.
pub open spec fn step_row(k: int) -> int {
    k / 5 - 2
}

/// The column part of the `k`-th step of the window, from -2 to 2.
pub open spec fn step_col(k: int) -> int {
    k % 5 - 2
}

/// cell of the board that holds the same text.
pub open spec fn neighbour_matches(g: Grid, i: int, j: int, m: int, n: int) -> bool {
    &&& !(m == 0 && n == 0)
    &&& 0 <= i + m < 3
    &&& 0 <= j + n < 3
    &&& g[i + m][j + n] == g[i][j]
}

/// cell that holds the same text.
pub open spec fn matches_within(g: Grid, i: int, j: int, k: int) -> int
    decreases k,
{
    if k <= 0 {
        0
    } else {
        matches_within(g, i, j, k - 1) + if neighbour_matches(
            g,
            i,
            j,
            step_row(k - 1),
            step_col(k - 1),
        ) {
            1int
        } else {
            0int
        }
    }
}

/// How many cells of the window around (`i`, `j`) hold the same text.
pub open spec fn matches_around(g: Grid, i: int, j: int) -> int {
    matches_within(g, i, j, 25)
}

/// three cells of its window.
pub open spec fn fires(g: Grid, i: int, j: int) -> bool {
    &&& g[i][j] == mark_x() || g[i][j] == mark_o()
    &&& matches_around(g, i, j) >= 3
}

/// What the mark in the cell (`i`, `j`) wins: `Win` for X, `Lose` otherwise.
pub open spec fn prize(g: Grid, i: int, j: int) -> GameResult {
    if g[i][j] == mark_x() {
        GameResult::Win
    } else {
        GameResult::Lose
    }
}

/// the cells being numbered row by row from 0 to 8.
pub open spec fn verdict_from(g: Grid, k: int) -> Option<GameResult>
    decreases 9 - k,
{
    if k < 0 || k >= 9 {
        None
    } else if fires(g, k / 3, k % 3) {
        Some(prize(g, k / 3, k % 3))
    } else {
        verdict_from(g, k + 1)
    }
}

/// The prize of the first winning cell of the board, if any cell wins.
pub open spec fn verdict(g: Grid) -> Option<GameResult> {
    verdict_from(g, 0)
}

/// where it holds something else.
pub open spec fn counted(g: Grid, i: int, j: int, mark: Seq<char>, k: int) -> int {
    if g[i][j] == mark {
        matches_within(g, i, j, k)
    } else {
        0
    }
}

/// ends the search.
#[verifier::loop_isolation(false)]
pub fn scan(board: &Board) -> (found: Option<GameResult>)
    requires
        board.wf(),
    ensures
        found == verdict(board@),
{
    let directions: [i32; 5] = [-2, -1, 0, 1, 2];
    let ghost g = board@;
    proof {
        board.lemma_view_is_grid();
        lemma_texts_differ();
    }
    let mut i: usize = 0;
    while i < 3
        invariant
            i <= 3,
            verdict(g) == verdict_from(g, 3 * i),
        decreases 3 - i,
    {
        let mut j: usize = 0;
        while j < 3
            invariant
                i < 3,
                j <= 3,
                verdict(g) == verdict_from(g, 3 * i + j),
            decreases 3 - j,
        {
            let here = board.mark_at(i, j);
            let mut x_s: usize = 0;
            let mut o_s: usize = 0;
            let mut a: usize = 0;
            while a < 5
                invariant
                    i < 3,
                    j < 3,
                    a <= 5,
                    x_s < 3,
                    o_s < 3,
                    x_s == counted(g, i as int, j as int, mark_x(), 5 * a),
                    o_s == counted(g, i as int, j as int, mark_o(), 5 * a),
                decreases 5 - a,
            {
                let mut b: usize = 0;
                while b < 5
                    invariant
                        i < 3,
                        j < 3,
                        a < 5,
                        b <= 5,
                        x_s < 3,
                        o_s < 3,
                        x_s == counted(g, i as int, j as int, mark_x(), 5 * a + b),
                        o_s == counted(g, i as int, j as int, mark_o(), 5 * a + b),
                    decreases 5 - b,
                {
                    let m = directions[a];
                    let n = directions[b];
                    let ghost k = 5 * a + b;
                    assert(step_row(k as int) == m && step_col(k as int) == n);
                    let im = crate::offset::add(i, m);
                    let jn = crate::offset::add(j, n);
                    if !(m == 0 && n == 0) {
                        if let Some(im) = im {
                            if let Some(jn) = jn {
                                if im < 3 && jn < 3 && board.same(i, j, im, jn) {
                                    match here {
                                        Some(Mark::X) => {
                                            x_s = x_s + 1;
                                        },
                                        Some(Mark::O) => {
                                            o_s = o_s + 1;
                                        },
                                        _ => {},
                                    }
                                }
                            }
                        }
                    }
                    if x_s == 3 {
                        proof {
                            lemma_matches_grow(g, i as int, j as int, k + 1, 25);
                        }
                        return Some(GameResult::Win);
                    }
                    if o_s == 3 {
                        proof {
                            lemma_matches_grow(g, i as int, j as int, k + 1, 25);
                        }
                        return Some(GameResult::Lose);
                    }
                    b = b + 1;
                }
                a = a + 1;
            }
            j = j + 1;
        }
        i = i + 1;
    }
    None
}

/// A count of matches is never negative.
pub proof fn lemma_matches_nonnegative(g: Grid, i: int, j: int, k: int)
    ensures
        0 <= matches_within(g, i, j, k),
    decreases k,
{
    if k > 0 {
        lemma_matches_nonnegative(g, i, j, k - 1);
    }
}

/// The count of matches only grows along the window.
pub proof fn lemma_matches_grow(g: Grid, i: int, j: int, k: int, l: int)
    requires
        k <= l,
    ensures
        0 <= matches_within(g, i, j, k) <= matches_within(g, i, j, l),
    decreases l - k,
{
    if k < l {
        lemma_matches_grow(g, i, j, k, l - 1);
    } else {
        lemma_matches_nonnegative(g, i, j, k);
    }
}

/// The text in the cell numbered `k`, the cells being numbered row by row.
pub open spec fn cell_text(g: Grid, k: int) -> Seq<char> {
    g[k / 3][k % 3]
}

/// Whether the cell numbered `k` wins, the cells being numbered row by row.
pub open spec fn cell_fires(g: Grid, k: int) -> bool {
    fires(g, k / 3, k % 3)
}

/// What the mark in the cell numbered `k` wins.
pub open spec fn cell_prize(g: Grid, k: int) -> GameResult {
    prize(g, k / 3, k % 3)
}

/// that wins, and there is none exactly where none of them wins.
pub proof fn lemma_verdict_is_first_winner(g: Grid, k: int)
    requires
        0 <= k <= 9,
    ensures
        verdict_from(g, k) is None <==> forall|c: int| k <= c < 9 ==> !#[trigger] cell_fires(g, c),
        verdict_from(g, k) is Some ==> exists|c: int|
            {
                &&& k <= c < 9
                &&& #[trigger] cell_fires(g, c)
                &&& verdict_from(g, k) == Some(cell_prize(g, c))
                &&& forall|d: int| k <= d < c ==> !#[trigger] cell_fires(g, d)
            },
    decreases 9 - k,
{
    if k < 9 {
        lemma_verdict_is_first_winner(g, k + 1);
        if cell_fires(g, k) {
            assert(verdict_from(g, k) == Some(cell_prize(g, k)));
        } else {
            assert(verdict_from(g, k) == verdict_from(g, k + 1));
            if verdict_from(g, k) is Some {
                let c = choose|c: int|
                    {
                        &&& k + 1 <= c < 9
                        &&& #[trigger] cell_fires(g, c)
                        &&& verdict_from(g, k + 1) == Some(cell_prize(g, c))
                        &&& forall|d: int| k + 1 <= d < c ==> !#[trigger] cell_fires(g, d)
                    };
                assert(forall|d: int| k <= d < c ==> !#[trigger] cell_fires(g, d));
            }
        }
    }
}

/// One where the cell (`r`, `c`) holds `text`, zero where it does not.
pub open spec fn holds_at(g: Grid, r: int, c: int, text: Seq<char>) -> int {
    if g[r][c] == text {
        1
    } else {
        0
    }
}

/// How many cells of the board hold `text`.
pub open spec fn occurrences(g: Grid, text: Seq<char>) -> int {
    holds_at(g, 0, 0, text) + holds_at(g, 0, 1, text) + holds_at(g, 0, 2, text) + holds_at(
        g,
        1,
        0,
        text,
    ) + holds_at(g, 1, 1, text) + holds_at(g, 1, 2, text) + holds_at(g, 2, 0, text) + holds_at(
        g,
        2,
        1,
        text,
    ) + holds_at(g, 2, 2, text)
}

/// How many cells of row `r` hold `text`.
spec fn occurrences_in_row(g: Grid, r: int, text: Seq<char>) -> int {
    holds_at(g, r, 0, text) + holds_at(g, r, 1, text) + holds_at(g, r, 2, text)
}

/// text of (`i`, `j`).
spec fn others_in_row(g: Grid, i: int, j: int, r: int) -> int {
    occurrences_in_row(g, r, g[i][j]) - if r == i {
        1int
    } else {
        0int
    }
}

/// where it does not.
spec fn match_at(g: Grid, i: int, j: int, m: int, n: int) -> int {
    if neighbour_matches(g, i, j, m, n) {
        1
    } else {
        0
    }
}

/// How many of the five steps that go `m` rows down lead to a match.
spec fn matches_in_band(g: Grid, i: int, j: int, m: int) -> int {
    match_at(g, i, j, m, -2) + match_at(g, i, j, m, -1) + match_at(g, i, j, m, 0) + match_at(
        g,
        i,
        j,
        m,
        1,
    ) + match_at(g, i, j, m, 2)
}

/// The five steps that follow the first `5 * a` add the matches of one band.
proof fn lemma_band(g: Grid, i: int, j: int, a: int)
    requires
        0 <= a < 5,
    ensures
        matches_within(g, i, j, 5 * a + 5) == matches_within(g, i, j, 5 * a) + matches_in_band(
            g,
            i,
            j,
            a - 2,
        ),
{
    reveal_with_fuel(matches_within, 6);
    assert(step_row(5 * a) == a - 2 && step_col(5 * a) == -2);
    assert(step_row(5 * a + 1) == a - 2 && step_col(5 * a + 1) == -1);
    assert(step_row(5 * a + 2) == a - 2 && step_col(5 * a + 2) == 0);
    assert(step_row(5 * a + 3) == a - 2 && step_col(5 * a + 3) == 1);
    assert(step_row(5 * a + 4) == a - 2 && step_col(5 * a + 4) == 2);
}

/// leaves the board matches nothing.
proof fn lemma_band_is_row(g: Grid, i: int, j: int, m: int)
    requires
        is_grid(g),
        0 <= i < 3,
        0 <= j < 3,
    ensures
        0 <= i + m < 3 ==> matches_in_band(g, i, j, m) == others_in_row(g, i, j, i + m),
        !(0 <= i + m < 3) ==> matches_in_band(g, i, j, m) == 0,
{
}

/// its text.
pub proof fn lemma_window_is_rest_of_board(g: Grid, i: int, j: int)
    requires
        is_grid(g),
        0 <= i < 3,
        0 <= j < 3,
    ensures
        matches_around(g, i, j) == occurrences(g, g[i][j]) - 1,
{
    lemma_band(g, i, j, 0);
    lemma_band(g, i, j, 1);
    lemma_band(g, i, j, 2);
    lemma_band(g, i, j, 3);
    lemma_band(g, i, j, 4);
    lemma_band_is_row(g, i, j, -2);
    lemma_band_is_row(g, i, j, -1);
    lemma_band_is_row(g, i, j, 0);
    lemma_band_is_row(g, i, j, 1);
    lemma_band_is_row(g, i, j, 2);
    assert(matches_within(g, i, j, 0) == 0);
    assert(occurrences(g, g[i][j]) == occurrences_in_row(g, 0, g[i][j]) + occurrences_in_row(
        g,
        1,
        g[i][j],
    ) + occurrences_in_row(g, 2, g[i][j]));
}

/// least four cells of the board.
pub proof fn lemma_fires_by_count(g: Grid, i: int, j: int)
    requires
        is_grid(g),
        0 <= i < 3,
        0 <= j < 3,
    ensures
        fires(g, i, j) <==> {
            ||| g[i][j] == mark_x() && occurrences(g, mark_x()) >= 4
            ||| g[i][j] == mark_o() && occurrences(g, mark_o()) >= 4
        },
{
    lemma_window_is_rest_of_board(g, i, j);
}

/// A text that is counted at least once stands in some cell.
pub proof fn lemma_some_cell_holds(g: Grid, text: Seq<char>)
    requires
        occurrences(g, text) >= 1,
    ensures
        exists|c: int| 0 <= c < 9 && cell_text(g, c) == text,
{
    if g[0][0] == text {
        assert(cell_text(g, 0) == text);
    } else if g[0][1] == text {
        assert(cell_text(g, 1) == text);
    } else if g[0][2] == text {
        assert(cell_text(g, 2) == text);
    } else if g[1][0] == text {
        assert(cell_text(g, 3) == text);
    } else if g[1][1] == text {
        assert(cell_text(g, 4) == text);
    } else if g[1][2] == text {
        assert(cell_text(g, 5) == text);
    } else if g[2][0] == text {
        assert(cell_text(g, 6) == text);
    } else if g[2][1] == text {
        assert(cell_text(g, 7) == text);
    } else {
        assert(cell_text(g, 8) == text);
    }
}

/// in at least four cells; where only one of them does, that one has won.
pub proof fn lemma_verdict_by_count(g: Grid)
    requires
        is_grid(g),
    ensures
        verdict(g) is None <==> occurrences(g, mark_x()) < 4 && occurrences(g, mark_o()) < 4,
        occurrences(g, mark_x()) >= 4 && occurrences(g, mark_o()) < 4 ==> verdict(g) == Some(
            GameResult::Win,
        ),
        occurrences(g, mark_o()) >= 4 && occurrences(g, mark_x()) < 4 ==> verdict(g) == Some(
            GameResult::Lose,
        ),
{
    lemma_verdict_is_first_winner(g, 0);
    assert forall|c: int| 0 <= c < 9 implies (#[trigger] cell_fires(g, c) <==> {
        ||| cell_text(g, c) == mark_x() && occurrences(g, mark_x()) >= 4
        ||| cell_text(g, c) == mark_o() && occurrences(g, mark_o()) >= 4
    }) by {
        lemma_fires_by_count(g, c / 3, c % 3);
    }
    lemma_texts_differ();
    if occurrences(g, mark_x()) >= 4 {
        let c = choose|c: int| 0 <= c < 9 && cell_text(g, c) == mark_x();
        assert(0 <= c < 9 && cell_text(g, c) == mark_x()) by {
            lemma_some_cell_holds(g, mark_x());
        }
        assert(cell_fires(g, c));
    }
    if occurrences(g, mark_o()) >= 4 {
        let c = choose|c: int| 0 <= c < 9 && cell_text(g, c) == mark_o();
        assert(0 <= c < 9 && cell_text(g, c) == mark_o()) by {
            lemma_some_cell_holds(g, mark_o());
        }
        assert(cell_fires(g, c));
    }
}

} // verus!
