//! What holds of every game, whatever the moves.

use vstd::prelude::*;
use crate::board::{
    Grid, blank, empty_grid, has_blank_cell, is_grid, lemma_texts_differ, mark_o, mark_x,
    with_mark,
};
use crate::detect::{
    cell_fires, cell_text, holds_at, lemma_some_cell_holds, lemma_verdict_by_count,
    lemma_verdict_is_first_winner, matches_within, neighbour_matches, occurrences, step_col,
    step_row, verdict,
};
use crate::game::GameState;
use crate::status::{GameResult, GameStatus, Player};

verus! {

/// A move to a blank cell writes the mover's mark into that cell and leaves
/// every other cell as it was; a move to a taken cell changes nothing at
/// all.
pub proof fn law_move_writes_one_cell(s: GameState, row: int, col: int)
    requires
        s.wf(),
        0 <= row < 3,
        0 <= col < 3,
    ensures
        s.board[row][col] == blank() ==> {
            &&& s.after_human_move(row, col).board == with_mark(s.board, row, col, s.player_mark)
            &&& s.after_computer_move(row, col).board == with_mark(
                s.board,
                row,
                col,
                s.computer_mark,
            )
        },
        s.board[row][col] != blank() ==> {
            &&& s.after_human_move(row, col) == s
            &&& s.after_computer_move(row, col) == s
        },
        forall|mark: Seq<char>| #[trigger] with_mark(s.board, row, col, mark)[row][col] == mark,
        forall|mark: Seq<char>, r: int, c: int|
            0 <= r < 3 && 0 <= c < 3 && !(r == row && c == col) ==> #[trigger] with_mark(
                s.board,
                row,
                col,
                mark,
            )[r][c] == s.board[r][c],
{
}

/// After a move that was taken the turn is the other side's: the
/// computer's after the human's move, unless that move has won the game,
/// and the human's after the computer's. After a move that was refused the
/// turn is whose it was.
pub proof fn law_turns_alternate(s: GameState, row: int, col: int)
    requires
        s.wf(),
        0 <= row < 3,
        0 <= col < 3,
    ensures
        s.board[row][col] == blank() && verdict(
            with_mark(s.board, row, col, s.player_mark),
        ) is None ==> s.after_human_move(row, col).current_player == Player::Computer,
        s.board[row][col] == blank() ==> s.after_computer_move(row, col).current_player
            == Player::Human,
        s.board[row][col] != blank() ==> {
            &&& s.after_human_move(row, col).current_player == s.current_player
            &&& s.after_computer_move(row, col).current_player == s.current_player
        },
{
}

/// Giving up ends the game and touches nothing else: not the board, not
/// the result, not the turn, the marks or the winner.
pub proof fn law_quit_only_ends(s: GameState)
    ensures
        s.after_quit().status == GameStatus::Over,
        s.after_quit().board == s.board,
        s.after_quit().result == s.result,
        s.after_quit().current_player == s.current_player,
        s.after_quit().winner == s.winner,
        s.after_quit().player_mark == s.player_mark,
        s.after_quit().computer_mark == s.computer_mark,
{
}

/// A blank cell matches nothing that counts: on a board without X and O no
/// mark has won, so a new game, looked at, is still a new game.
pub proof fn law_blank_board_has_no_winner(player_mark: Seq<char>)
    ensures
        verdict(empty_grid()) is None,
        GameState::fresh(player_mark).judged() == GameState::fresh(player_mark),
        GameState::fresh(player_mark).judged().result == GameResult::Draw,
        GameState::fresh(player_mark).judged().status == GameStatus::InProgress,
{
    let g = empty_grid();
    lemma_texts_differ();
    assert(occurrences(g, mark_x()) == 0);
    assert(occurrences(g, mark_o()) == 0);
    lemma_verdict_by_count(g);
}

/// Whether no mark has its like nearby: no cell that holds X or O has its
/// text in another cell at most two rows and two columns away.
pub open spec fn marks_apart(g: Grid) -> bool {
    forall|i: int, j: int, r: int, c: int|
        {
            &&& 0 <= i < 3 && 0 <= j < 3
            &&& 0 <= r < 3 && 0 <= c < 3
            &&& !(r == i && c == j)
            &&& -2 <= r - i <= 2 && -2 <= c - j <= 2
            &&& g[i][j] == mark_x() || g[i][j] == mark_o()
        } ==> #[trigger] g[r][c] != #[trigger] g[i][j]
}

/// Where no mark has its like nearby, no mark has won, however full the
/// board is.
pub proof fn law_marks_apart_have_no_winner(g: Grid)
    requires
        marks_apart(g),
    ensures
        verdict(g) is None,
{
    assert forall|c: int| 0 <= c < 9 implies !#[trigger] cell_fires(g, c) by {
        let i = c / 3;
        let j = c % 3;
        if g[i][j] == mark_x() || g[i][j] == mark_o() {
            assert forall|l: int| 0 <= l < 25 implies !#[trigger] neighbour_matches(
                g,
                i,
                j,
                step_row(l),
                step_col(l),
            ) by {
                if neighbour_matches(g, i, j, step_row(l), step_col(l)) {
                    assert(g[i + step_row(l)][j + step_col(l)] == g[i][j]);
                }
            }
            lemma_no_match_counts_zero(g, i, j, 25);
        }
    }
    lemma_verdict_is_first_winner(g, 0);
}

/// Steps that lead to no match count nothing.
proof fn lemma_no_match_counts_zero(g: Grid, i: int, j: int, k: int)
    requires
        0 <= k <= 25,
        forall|l: int|
            0 <= l < 25 ==> !#[trigger] neighbour_matches(g, i, j, step_row(l), step_col(l)),
    ensures
        matches_within(g, i, j, k) == 0,
    decreases k,
{
    if k > 0 {
        lemma_no_match_counts_zero(g, i, j, k - 1);
    }
}

/// Where one cell alone is blank, the computer's mark can go nowhere else:
/// every draw of another cell leaves the game as it was, and the draw of
/// that cell writes the mark into it.
pub proof fn law_last_blank_cell_takes_the_mark(s: GameState, blank_row: int, blank_col: int)
    requires
        s.wf(),
        0 <= blank_row < 3,
        0 <= blank_col < 3,
        forall|r: int, c: int|
            0 <= r < 3 && 0 <= c < 3 ==> (#[trigger] s.board[r][c] == blank() <==> r == blank_row
                && c == blank_col),
    ensures
        forall|row: int, col: int|
            0 <= row < 3 && 0 <= col < 3 && !(row == blank_row && col == blank_col)
                ==> #[trigger] s.after_computer_move(row, col) == s,
        s.after_computer_move(blank_row, blank_col).board == with_mark(
            s.board,
            blank_row,
            blank_col,
            s.computer_mark,
        ),
        s.after_computer_move(blank_row, blank_col).current_player == Player::Human,
{
}

/// A game that is over stays over, whatever comes.
pub proof fn law_over_stays_over(s: GameState, row: int, col: int)
    requires
        s.status == GameStatus::Over,
    ensures
        s.judged().status == GameStatus::Over,
        s.after_quit().status == GameStatus::Over,
        s.after_human_move(row, col).status == GameStatus::Over,
        s.after_computer_move(row, col).status == GameStatus::Over,
{
}

/// The result changes only where a mark has won: a move after which none
/// has leaves the result, the status and the winner as they were.
pub proof fn law_result_waits_for_a_winner(s: GameState, row: int, col: int)
    ensures
        verdict(s.board) is None ==> s.judged() == s,
        verdict(with_mark(s.board, row, col, s.player_mark)) is None ==> {
            &&& s.after_human_move(row, col).result == s.result
            &&& s.after_human_move(row, col).status == s.status
            &&& s.after_human_move(row, col).winner == s.winner
        },
        verdict(with_mark(s.board, row, col, s.computer_mark)) is None ==> {
            &&& s.after_computer_move(row, col).result == s.result
            &&& s.after_computer_move(row, col).status == s.status
            &&& s.after_computer_move(row, col).winner == s.winner
        },
{
}

/// Where a mark has won, the game is over, the side that was to move is
/// the winner, and the result is `Win` for X and `Lose` for O, whoever
/// plays which.
pub proof fn law_winner_is_the_mover(s: GameState)
    requires
        verdict(s.board) is Some,
    ensures
        s.judged().status == GameStatus::Over,
        s.judged().winner == s.current_player,
        s.judged().result == verdict(s.board)->0,
        s.judged().result != GameResult::Draw,
        s.judged().board == s.board,
        s.judged().current_player == s.current_player,
{
    lemma_verdict_is_first_winner(s.board, 0);
}

/// The two sides never play the same mark, and the computer plays X or O.
pub proof fn law_marks_differ(s: GameState)
    requires
        s.wf(),
    ensures
        s.player_mark != s.computer_mark,
        s.computer_mark == mark_x() || s.computer_mark == mark_o(),
        s.player_mark == mark_x() ==> s.computer_mark == mark_o(),
        s.player_mark != mark_x() ==> s.computer_mark == mark_x(),
{
    lemma_texts_differ();
}

/// Every step of a game keeps it well formed and keeps the two marks.
pub proof fn law_steps_keep_the_game_sound(s: GameState, row: int, col: int)
    requires
        s.wf(),
        0 <= row < 3,
        0 <= col < 3,
    ensures
        GameState::fresh(s.player_mark).wf(),
        s.judged().wf(),
        s.after_quit().wf(),
        s.after_human_move(row, col).wf(),
        s.after_computer_move(row, col).wf(),
        s.after_human_move(row, col).player_mark == s.player_mark,
        s.after_human_move(row, col).computer_mark == s.computer_mark,
        s.after_computer_move(row, col).player_mark == s.player_mark,
        s.after_computer_move(row, col).computer_mark == s.computer_mark,
{
}

/// A cell that is taken keeps its text: no step of a game clears a cell or
/// writes over one.
pub proof fn law_taken_cells_stay(s: GameState, row: int, col: int, r: int, c: int)
    requires
        s.wf(),
        0 <= row < 3,
        0 <= col < 3,
        0 <= r < 3,
        0 <= c < 3,
        s.board[r][c] != blank(),
    ensures
        s.judged().board[r][c] == s.board[r][c],
        s.after_quit().board[r][c] == s.board[r][c],
        s.after_human_move(row, col).board[r][c] == s.board[r][c],
        s.after_computer_move(row, col).board[r][c] == s.board[r][c],
{
}

/// Whether every cell is blank or holds the mark of one of the two sides.
pub open spec fn only_marks(s: GameState) -> bool {
    forall|r: int, c: int|
        0 <= r < 3 && 0 <= c < 3 ==> {
            ||| #[trigger] s.board[r][c] == blank()
            ||| s.board[r][c] == s.player_mark
            ||| s.board[r][c] == s.computer_mark
        }
}

/// How many marks the human has on the board beyond the computer's when
/// the sides have moved in turn: one where the computer is to move, none
/// where the human is.
pub open spec fn lead(s: GameState) -> int {
    if s.current_player == Player::Computer {
        1
    } else {
        0
    }
}

/// Whether the game is as play in turn leaves it: the board holds nothing
/// but blanks and the two marks, and while the game goes on no mark has
/// won and the human, who moves first, has as many marks as the computer
/// or one more. (A human who plays the blank leaves no marks to count.)
pub open spec fn in_order(s: GameState) -> bool {
    &&& s.wf()
    &&& only_marks(s)
    &&& s.status == GameStatus::InProgress ==> {
        &&& verdict(s.board) is None
        &&& s.player_mark != blank() ==> occurrences(s.board, s.player_mark) == occurrences(
            s.board,
            s.computer_mark,
        ) + lead(s)
    }
}

/// Writing a mark into a cell takes one from the count of what the cell
/// held and adds one to the count of the mark.
pub proof fn lemma_count_after_mark(g: Grid, r: int, c: int, mark: Seq<char>, text: Seq<char>)
    requires
        is_grid(g),
        0 <= r < 3,
        0 <= c < 3,
    ensures
        occurrences(with_mark(g, r, c, mark), text) == occurrences(g, text) - holds_at(
            g,
            r,
            c,
            text,
        ) + if mark == text {
            1int
        } else {
            0int
        },
{
}

/// A new game is in order.
pub proof fn law_new_game_is_in_order(player_mark: Seq<char>)
    ensures
        in_order(GameState::fresh(player_mark)),
{
    law_blank_board_has_no_winner(player_mark);
    law_marks_differ(GameState::fresh(player_mark));
    lemma_texts_differ();
}

/// A game in order stays in order when the side to move moves, and when
/// the human gives up.
pub proof fn law_play_in_turn_keeps_order(s: GameState, row: int, col: int)
    requires
        in_order(s),
        0 <= row < 3,
        0 <= col < 3,
    ensures
        in_order(s.after_quit()),
        s.current_player == Player::Human ==> in_order(s.after_human_move(row, col)),
        s.current_player == Player::Computer ==> in_order(s.after_computer_move(row, col)),
{
    law_marks_differ(s);
    lemma_texts_differ();
    if s.board[row][col] == blank() {
        if s.current_player == Player::Human {
            let after = s.after_human_move(row, col);
            lemma_count_after_mark(s.board, row, col, s.player_mark, s.player_mark);
            lemma_count_after_mark(s.board, row, col, s.player_mark, s.computer_mark);
            assert(after.board == with_mark(s.board, row, col, s.player_mark));
            assert(only_marks(after));
        } else {
            let after = s.after_computer_move(row, col);
            lemma_count_after_mark(s.board, row, col, s.computer_mark, s.player_mark);
            lemma_count_after_mark(s.board, row, col, s.computer_mark, s.computer_mark);
            assert(after.board == with_mark(s.board, row, col, s.computer_mark));
            assert(only_marks(after));
        }
    }
}

/// On a board that holds nothing but blanks and two marks that differ from
/// the blank and from each other, the three counts add up to the nine
/// cells.
proof fn lemma_counts_fill_the_board(g: Grid, first: Seq<char>, second: Seq<char>)
    requires
        first != blank(),
        second != blank(),
        first != second,
        forall|r: int, c: int|
            0 <= r < 3 && 0 <= c < 3 ==> {
                ||| #[trigger] g[r][c] == blank()
                ||| g[r][c] == first
                ||| g[r][c] == second
            },
    ensures
        occurrences(g, blank()) + occurrences(g, first) + occurrences(g, second) == 9,
{
    assert forall|r: int, c: int| 0 <= r < 3 && 0 <= c < 3 implies holds_at(g, r, c, blank())
        + holds_at(g, r, c, first) + #[trigger] holds_at(g, r, c, second) == 1 by {
        assert(g[r][c] == blank() || g[r][c] == first || g[r][c] == second);
    }
    assert(holds_at(g, 0, 0, second) + holds_at(g, 0, 1, second) + holds_at(g, 0, 2, second)
        >= 0);
    assert(holds_at(g, 1, 0, second) + holds_at(g, 1, 1, second) + holds_at(g, 1, 2, second)
        >= 0);
    assert(holds_at(g, 2, 0, second) + holds_at(g, 2, 1, second) + holds_at(g, 2, 2, second)
        >= 0);
}

/// A game in order that goes on has room: at least two cells are blank. So
/// the computer, whenever its turn comes, has a cell to find.
pub proof fn law_game_in_progress_has_room(s: GameState)
    requires
        in_order(s),
        s.status == GameStatus::InProgress,
    ensures
        occurrences(s.board, blank()) >= 2,
        has_blank_cell(s.board),
{
    law_marks_differ(s);
    lemma_verdict_by_count(s.board);
    lemma_texts_differ();
    let g = s.board;
    assert(occurrences(g, s.computer_mark) <= 3);
    if s.player_mark != blank() {
        lemma_counts_fill_the_board(g, s.player_mark, s.computer_mark);
    } else {
        let other = if s.computer_mark == mark_x() {
            mark_o()
        } else {
            mark_x()
        };
        lemma_counts_fill_the_board(g, other, s.computer_mark);
        assert(occurrences(g, other) <= 3);
    }
    lemma_some_cell_holds(g, blank());
    let k = choose|k: int| 0 <= k < 9 && cell_text(g, k) == blank();
    assert(g[k / 3][k % 3] == blank());
}

} // verus!
