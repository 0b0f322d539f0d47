//! The game: a board, the two marks, whose turn it is and how it stands.

use vstd::prelude::*;
use crate::board::{Board, Grid, Mark, blank, empty_grid, is_grid, mark_o, mark_x, with_mark};
use crate::detect::{scan, verdict};
use crate::moves::{MoveError, MoveInput, lemma_reading_in_range, read_move, reading, trimmed};
use crate::picker::pick_random_position;
use crate::render::{draw, picture};
use crate::status::{GameResult, GameStatus, Player};

verus! {

/// The mark that the computer plays against a human who plays
/// `player_mark`: O against X, and X against anything else.
pub open spec fn opponent_mark(player_mark: Seq<char>) -> Seq<char> {
    if player_mark == mark_x() {
        mark_o()
    } else {
        mark_x()
    }
}

/// What became of the human's turn.
#[derive(Clone, Copy, Debug, PartialEq, Eq, Structural)]
pub enum HumanTurn {
    /// The mark was placed.
    Placed,
    /// The cell was taken: nothing changed, and the human is asked again.
    Rejected,
    /// The human gave the game up.
    Quit,
}

/// A game as a value of mathematics.
pub struct GameState {
    pub board: Grid,
    pub current_player: Player,
    pub status: GameStatus,
    pub result: GameResult,
    pub player_mark: Seq<char>,
    pub computer_mark: Seq<char>,
    pub winner: Player,
}

impl GameState {
    /// The board is a grid, and the computer plays the mark that answers
    /// the human's.
    pub open spec fn wf(self) -> bool {
        &&& is_grid(self.board)
        &&& self.computer_mark == opponent_mark(self.player_mark)
    }

    /// The game before the first move, with the human playing
    /// `player_mark`.
    pub open spec fn fresh(player_mark: Seq<char>) -> GameState {
        GameState {
            board: empty_grid(),
            current_player: Player::Human,
            status: GameStatus::InProgress,
            result: GameResult::Draw,
            player_mark,
            computer_mark: opponent_mark(player_mark),
            winner: Player::Human,
        }
    }

    /// The game after a look at the board: where a mark has won, the game
    /// is over, the side to move is the winner and the mark's prize is the
    /// result; where none has, nothing changes.
    pub open spec fn judged(self) -> GameState {
        match verdict(self.board) {
            Some(prize) => GameState {
                winner: self.current_player,
                status: GameStatus::Over,
                result: prize,
                ..self
            },
            None => self,
        }
    }

    /// The game after the human gave up: over, and otherwise as before.
    pub open spec fn after_quit(self) -> GameState {
        GameState { status: GameStatus::Over, ..self }
    }

    /// The game with `mark` written into the cell (`row`, `col`).
    pub open spec fn marked(self, row: int, col: int, mark: Seq<char>) -> GameState {
        GameState { board: with_mark(self.board, row, col, mark), ..self }
    }

    /// The game after the human chose the cell (`row`, `col`).
    ///
    /// A taken cell changes nothing. A blank one takes the human's mark;
    /// then the board is looked at, and unless a mark has won the turn
    /// passes to the computer.
    pub open spec fn after_human_move(self, row: int, col: int) -> GameState {
        if self.board[row][col] != blank() {
            self
        } else {
            let placed = self.marked(row, col, self.player_mark);
            if verdict(placed.board) is Some {
                placed.judged()
            } else {
                GameState { current_player: Player::Computer, ..placed }
            }
        }
    }

    /// The game after the human asked for `input`.
    pub open spec fn after_human_input(self, input: MoveInput) -> GameState {
        match input {
            MoveInput::Quit => self.after_quit(),
            MoveInput::Cell { row, col } => self.after_human_move(row as int, col as int),
        }
    }

    /// What becomes of the human's turn when the human asks for `input`.
    pub open spec fn answer_to(self, input: MoveInput) -> HumanTurn {
        match input {
            MoveInput::Quit => HumanTurn::Quit,
            MoveInput::Cell { row, col } => if self.board[row as int][col as int] == blank() {
                HumanTurn::Placed
            } else {
                HumanTurn::Rejected
            },
        }
    }

    /// The side that is to move: whose turn it is while the game goes on,
    /// and nobody once it is over.
    pub open spec fn to_move(self) -> Option<Player> {
        if self.status == GameStatus::InProgress {
            Some(self.current_player)
        } else {
            None
        }
    }

    /// The game after the computer drew the cell (`row`, `col`).
    ///
    /// A taken cell changes nothing. A blank one takes the computer's mark;
    /// then the board is looked at, and the turn passes to the human.
    pub open spec fn after_computer_move(self, row: int, col: int) -> GameState {
        if self.board[row][col] != blank() {
            self
        } else {
            let placed = self.marked(row, col, self.computer_mark);
            GameState { current_player: Player::Human, ..placed.judged() }
        }
    }
}

/// A game of tic-tac-toe between a human and the computer.
pub struct Game {
    board: Board,
    current_player: Player,
    status: GameStatus,
    result: GameResult,
    player_mark: String,
    computer_mark: String,
    winner: Player,
}

impl View for Game {
    type V = GameState;

    closed spec fn view(&self) -> GameState {
        GameState {
            board: self.board@,
            current_player: self.current_player,
            status: self.status,
            result: self.result,
            player_mark: self.player_mark@,
            computer_mark: self.computer_mark@,
            winner: self.winner,
        }
    }
}

impl Game {
    /// The board has its shape and the two marks answer each other.
    pub closed spec fn wf(&self) -> bool {
        &&& self.board.wf()
        &&& self@.wf()
    }

    /// A new game in which the human plays `player_mark`, whatever text
    /// that is: the board is blank, the human moves first.
    pub fn new(player_mark: String) -> (game: Game)
        ensures
            game.wf(),
            game@ == GameState::fresh(player_mark@),
    {
        let computer_mark = if player_mark == Mark::X.to_text() {
            Mark::O.to_text()
        } else {
            Mark::X.to_text()
        };
        let board = Board::new();
        proof {
            board.lemma_view_is_grid();
        }
        Game {
            board,
            current_player: Player::Human,
            status: GameStatus::InProgress,
            result: GameResult::Draw,
            player_mark,
            computer_mark,
            winner: Player::Human,
        }
    }

    /// Looks at the board and, where a mark has won, ends the game.
    ///
    /// Says whether a mark has won.
    pub fn check_winner(&mut self) -> (won: bool)
        requires
            old(self).wf(),
        ensures
            final(self).wf(),
            final(self)@ == old(self)@.judged(),
            won == (verdict(old(self)@.board) is Some),
    {
        match scan(&self.board) {
            Some(prize) => {
                self.winner = self.current_player;
                self.status = GameStatus::Over;
                self.result = prize;
                true
            },
            None => false,
        }
    }

    /// Ends the game at the human's wish.
    pub fn quit(&mut self)
        requires
            old(self).wf(),
        ensures
            final(self).wf(),
            final(self)@ == old(self)@.after_quit(),
    {
        self.status = GameStatus::Over;
    }

    /// The human's move to the cell (`row`, `col`).
    ///
    /// Says whether the mark was placed; a taken cell refuses it.
    pub fn human_move(&mut self, row: usize, col: usize) -> (placed: bool)
        requires
            old(self).wf(),
            row < 3,
            col < 3,
        ensures
            final(self).wf(),
            final(self)@ == old(self)@.after_human_move(row as int, col as int),
            placed == (old(self)@.board[row as int][col as int] == blank()),
    {
        if self.board.is_blank(row, col) {
            self.board.put(row, col, self.player_mark.clone());
            if !self.check_winner() {
                self.current_player = Player::Computer;
            }
            true
        } else {
            false
        }
    }

    /// Does what the human asked for: gives the game up, or moves to a cell.
    pub fn human_step(&mut self, input: MoveInput) -> (turn: HumanTurn)
        requires
            old(self).wf(),
            input matches MoveInput::Cell { row, col } ==> row < 3 && col < 3,
        ensures
            final(self).wf(),
            final(self)@ == old(self)@.after_human_input(input),
            turn == old(self)@.answer_to(input),
    {
        match input {
            MoveInput::Quit => {
                self.quit();
                HumanTurn::Quit
            },
            MoveInput::Cell { row, col } => {
                if self.human_move(row, col) {
                    HumanTurn::Placed
                } else {
                    HumanTurn::Rejected
                }
            },
        }
    }

    /// The human's turn, from the line that the human typed.
    ///
    /// A line that is no move is an error, and the game is as it was: such
    /// a game cannot go on.
    pub fn human_turn(&mut self, line: &str) -> (turn: Result<HumanTurn, MoveError>)
        requires
            old(self).wf(),
        ensures
            final(self).wf(),
            match reading(trimmed(line@)) {
                Ok(input) => {
                    &&& turn == Ok::<HumanTurn, MoveError>(old(self)@.answer_to(input))
                    &&& final(self)@ == old(self)@.after_human_input(input)
                },
                Err(e) => {
                    &&& turn == Err::<HumanTurn, MoveError>(e)
                    &&& final(self)@ == old(self)@
                },
            },
    {
        match read_move(line) {
            Ok(input) => {
                proof {
                    lemma_reading_in_range(trimmed(line@));
                }
                Ok(self.human_step(input))
            },
            Err(e) => Err(e),
        }
    }

    /// The computer's move to the cell (`row`, `col`) that it drew.
    ///
    /// Says whether the mark was placed; a taken cell refuses it.
    pub fn computer_move(&mut self, row: usize, col: usize) -> (placed: bool)
        requires
            old(self).wf(),
            row < 3,
            col < 3,
        ensures
            final(self).wf(),
            final(self)@ == old(self)@.after_computer_move(row as int, col as int),
            placed == (old(self)@.board[row as int][col as int] == blank()),
    {
        if self.board.is_blank(row, col) {
            self.board.put(row, col, self.computer_mark.clone());
            self.check_winner();
            self.current_player = Player::Human;
            true
        } else {
            false
        }
    }

    /// The computer's turn: it draws a row and a column, each from 0 to 2,
    /// and draws again while the cell is taken, at most `draws` times.
    ///
    /// Gives the cell that took the mark, or `None` where every draw hit a
    /// taken cell; the game is then as it was, and a caller who wants the
    /// computer to go on drawing asks again. A first draw on a blank board
    /// cannot miss.
    pub fn computer_turn(&mut self, draws: usize) -> (cell: Option<(usize, usize)>)
        requires
            old(self).wf(),
        ensures
            final(self).wf(),
            match cell {
                Some((row, col)) => {
                    &&& row < 3
                    &&& col < 3
                    &&& old(self)@.board[row as int][col as int] == blank()
                    &&& final(self)@ == old(self)@.after_computer_move(row as int, col as int)
                },
                None => {
                    &&& final(self)@ == old(self)@
                    &&& draws == 0 || old(self)@.board != empty_grid()
                },
            },
    {
        let mut left: usize = draws;
        while left > 0
            invariant
                self.wf(),
                self@ == old(self)@,
                left == draws || old(self)@.board != empty_grid(),
            decreases left,
        {
            let row = pick_random_position() as usize;
            let col = pick_random_position() as usize;
            if self.computer_move(row, col) {
                return Some((row, col));
            }
            left = left - 1;
        }
        None
    }

    /// The side that is to move, or `None` once the game is over.
    pub fn to_move(&self) -> (p: Option<Player>)
        ensures
            p == self@.to_move(),
    {
        if self.status == GameStatus::InProgress {
            Some(self.current_player)
        } else {
            None
        }
    }

    /// Whose turn it is.
    pub fn current_player(&self) -> (p: Player)
        ensures
            p == self@.current_player,
    {
        self.current_player
    }

    /// Whether the game still goes on.
    pub fn status(&self) -> (s: GameStatus)
        ensures
            s == self@.status,
    {
        self.status
    }

    /// How the game ended; `Draw` until a mark has won.
    pub fn result(&self) -> (r: GameResult)
        ensures
            r == self@.result,
    {
        self.result
    }

    /// The side that was to move when a mark won; the human until then.
    pub fn winner(&self) -> (p: Player)
        ensures
            p == self@.winner,
    {
        self.winner
    }

    /// The board as it stands.
    pub fn board(&self) -> (b: &Board)
        requires
            self.wf(),
        ensures
            b.wf(),
            b@ == self@.board,
    {
        &self.board
    }

    /// The picture of the board, as text to be shown.
    pub fn display_board(&self) -> (text: String)
        requires
            self.wf(),
        ensures
            text@ == picture(self@.board),
    {
        draw(&self.board)
    }

    /// The mark that the human plays.
    pub fn player_mark(&self) -> (m: &String)
        ensures
            m@ == self@.player_mark,
    {
        &self.player_mark
    }

    /// The mark that the computer plays.
    pub fn computer_mark(&self) -> (m: &String)
        ensures
            m@ == self@.computer_mark,
    {
        &self.computer_mark
    }
}

} // verus!
