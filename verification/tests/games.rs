use tictactoe::game::{Game, HumanTurn};
use tictactoe::moves::{MoveError, MoveInput};
use tictactoe::status::{GameResult, GameStatus, Player};

fn rows_of(rows: [[&str; 3]; 3]) -> Vec<Vec<String>> {
    rows.iter().map(|row| row.iter().map(|cell| cell.to_string()).collect()).collect()
}

fn game_for(mark: &str) -> Game {
    Game::new(mark.to_string())
}

/// Everything that a game holds, to compare two moments of it.
fn snapshot(game: &Game) -> (Vec<Vec<String>>, Player, GameStatus, GameResult, Player, String, String) {
    (
        game.board().rows(),
        game.current_player(),
        game.status(),
        game.result(),
        game.winner(),
        game.player_mark().clone(),
        game.computer_mark().clone(),
    )
}

#[test]
fn new_game_for_x() {
    let game = game_for("X");
    assert_eq!(game.board().rows(), rows_of([[" ", " ", " "], [" ", " ", " "], [" ", " ", " "]]));
    assert_eq!(game.current_player(), Player::Human);
    assert_eq!(game.status(), GameStatus::InProgress);
    assert_eq!(game.result(), GameResult::Draw);
    assert_eq!(game.winner(), Player::Human);
    assert_eq!(game.player_mark(), "X");
    assert_eq!(game.computer_mark(), "O");
}

#[test]
fn new_game_for_o() {
    let game = game_for("O");
    assert_eq!(game.player_mark(), "O");
    assert_eq!(game.computer_mark(), "X");
    assert_eq!(game.current_player(), Player::Human);
}

#[test]
fn new_game_takes_any_text_as_the_mark() {
    for mark in ["Z", "x", "o", "", " ", "XX", "X ", "human"] {
        let game = game_for(mark);
        assert_eq!(game.player_mark(), mark);
        assert_eq!(game.computer_mark(), "X");
        assert_eq!(game.status(), GameStatus::InProgress);
        assert_eq!(game.result(), GameResult::Draw);
    }
}

#[test]
fn new_game_has_no_winner() {
    let mut game = game_for("X");
    let before = snapshot(&game);
    assert!(!game.check_winner());
    assert_eq!(snapshot(&game), before);
}

#[test]
fn human_move_writes_one_cell() {
    let mut game = game_for("X");
    assert!(game.human_move(1, 2));
    assert_eq!(game.board().rows(), rows_of([[" ", " ", " "], [" ", " ", "X"], [" ", " ", " "]]));
    assert_eq!(game.current_player(), Player::Computer);
    assert_eq!(game.status(), GameStatus::InProgress);
    assert_eq!(game.result(), GameResult::Draw);
    assert_eq!(game.winner(), Player::Human);
}

#[test]
fn computer_move_writes_one_cell() {
    let mut game = game_for("X");
    assert!(game.human_move(1, 2));
    assert!(game.computer_move(0, 0));
    assert_eq!(game.board().rows(), rows_of([["O", " ", " "], [" ", " ", "X"], [" ", " ", " "]]));
    assert_eq!(game.current_player(), Player::Human);
    assert_eq!(game.status(), GameStatus::InProgress);
    assert_eq!(game.result(), GameResult::Draw);
}

#[test]
fn human_move_to_a_taken_cell_changes_nothing() {
    let mut game = game_for("X");
    assert!(game.human_move(1, 1));
    assert!(game.computer_move(0, 0));
    let before = snapshot(&game);
    assert!(!game.human_move(1, 1));
    assert_eq!(snapshot(&game), before);
    assert!(!game.human_move(0, 0));
    assert_eq!(snapshot(&game), before);
    assert_eq!(game.current_player(), Player::Human);
}

#[test]
fn computer_move_to_a_taken_cell_changes_nothing() {
    let mut game = game_for("X");
    assert!(game.human_move(1, 1));
    let before = snapshot(&game);
    assert!(!game.computer_move(1, 1));
    assert_eq!(snapshot(&game), before);
    assert_eq!(game.current_player(), Player::Computer);
}

#[test]
fn turns_alternate() {
    let mut game = game_for("O");
    assert_eq!(game.current_player(), Player::Human);
    assert!(game.human_move(0, 0));
    assert_eq!(game.current_player(), Player::Computer);
    assert!(game.computer_move(0, 1));
    assert_eq!(game.current_player(), Player::Human);
    assert!(!game.human_move(0, 1));
    assert_eq!(game.current_player(), Player::Human);
    assert!(game.human_move(0, 2));
    assert_eq!(game.current_player(), Player::Computer);
    assert!(!game.computer_move(0, 2));
    assert_eq!(game.current_player(), Player::Computer);
    assert!(game.computer_move(1, 0));
    assert_eq!(game.current_player(), Player::Human);
}

#[test]
fn quit_ends_the_game_and_nothing_else() {
    let mut game = game_for("X");
    assert!(game.human_move(2, 2));
    assert!(game.computer_move(0, 1));
    let (board, player, _, result, winner, player_mark, computer_mark) = snapshot(&game);
    game.quit();
    assert_eq!(
        snapshot(&game),
        (board, player, GameStatus::Over, result, winner, player_mark, computer_mark)
    );
    assert_eq!(game.result(), GameResult::Draw);
}

#[test]
fn quit_on_a_new_game() {
    let mut game = game_for("O");
    game.quit();
    assert_eq!(game.status(), GameStatus::Over);
    assert_eq!(game.result(), GameResult::Draw);
    assert_eq!(game.board().rows(), rows_of([[" ", " ", " "], [" ", " ", " "], [" ", " ", " "]]));
    game.quit();
    assert_eq!(game.status(), GameStatus::Over);
}

#[test]
fn three_marks_do_not_end_the_game() {
    let mut game = game_for("X");
    assert!(game.human_move(0, 0));
    assert!(game.computer_move(1, 1));
    assert!(game.human_move(0, 1));
    assert!(game.computer_move(2, 2));
    assert!(game.human_move(0, 2));
    assert_eq!(game.board().rows(), rows_of([["X", "X", "X"], [" ", "O", " "], [" ", " ", "O"]]));
    assert_eq!(game.status(), GameStatus::InProgress);
    assert_eq!(game.result(), GameResult::Draw);
    assert_eq!(game.current_player(), Player::Computer);
    assert!(!game.check_winner());
}

#[test]
fn human_with_x_wins_on_the_fourth_mark() {
    let mut game = game_for("X");
    assert!(game.human_move(0, 0));
    assert!(game.computer_move(1, 1));
    assert!(game.human_move(0, 1));
    assert!(game.computer_move(2, 2));
    assert!(game.human_move(0, 2));
    assert!(game.computer_move(2, 0));
    assert_eq!(game.status(), GameStatus::InProgress);
    assert!(game.human_move(1, 0));
    assert_eq!(game.status(), GameStatus::Over);
    assert_eq!(game.result(), GameResult::Win);
    assert_eq!(game.winner(), Player::Human);
    assert_eq!(game.current_player(), Player::Human);
    assert_eq!(game.board().rows(), rows_of([["X", "X", "X"], ["X", "O", " "], ["O", " ", "O"]]));
}

#[test]
fn computer_wins_where_the_human_mark_never_counts() {
    let mut game = game_for("Z");
    assert!(game.human_move(0, 0));
    assert!(game.computer_move(1, 0));
    assert!(game.human_move(0, 1));
    assert!(game.computer_move(1, 1));
    assert!(game.human_move(0, 2));
    assert!(game.computer_move(1, 2));
    assert!(game.human_move(2, 0));
    assert_eq!(game.status(), GameStatus::InProgress);
    assert_eq!(game.current_player(), Player::Computer);
    assert!(game.computer_move(2, 1));
    assert_eq!(game.board().rows(), rows_of([["Z", "Z", "Z"], ["X", "X", "X"], ["Z", "X", " "]]));
    assert_eq!(game.status(), GameStatus::Over);
    assert_eq!(game.result(), GameResult::Win);
    assert_eq!(game.winner(), Player::Computer);
    assert_eq!(game.current_player(), Player::Human);
}

#[test]
fn o_loses_whoever_plays_it() {
    let mut game = game_for("O");
    assert!(game.human_move(0, 0));
    assert!(game.computer_move(1, 0));
    assert!(game.human_move(0, 1));
    assert!(game.computer_move(1, 1));
    assert!(game.human_move(0, 2));
    assert!(game.computer_move(1, 2));
    assert!(game.human_move(2, 0));
    assert_eq!(game.status(), GameStatus::Over);
    assert_eq!(game.result(), GameResult::Lose);
    assert_eq!(game.winner(), Player::Human);
    assert_eq!(game.current_player(), Player::Human);

    let mut game = game_for("X");
    assert!(game.human_move(0, 0));
    assert!(game.computer_move(1, 0));
    assert!(game.human_move(0, 1));
    assert!(game.computer_move(1, 1));
    assert!(game.human_move(2, 2));
    assert!(game.computer_move(1, 2));
    assert!(game.human_move(2, 1));
    assert_eq!(game.status(), GameStatus::Over);
    assert_eq!(game.result(), GameResult::Win);

    let mut game = game_for("X");
    assert!(game.human_move(0, 0));
    assert!(game.computer_move(1, 0));
    assert!(game.human_move(0, 1));
    assert!(game.computer_move(1, 1));
    assert!(game.human_move(2, 2));
    assert!(game.computer_move(1, 2));
    assert!(game.computer_move(2, 0));
    assert_eq!(game.status(), GameStatus::Over);
    assert_eq!(game.result(), GameResult::Lose);
    assert_eq!(game.winner(), Player::Human);
    assert_eq!(game.current_player(), Player::Human);
}

#[test]
fn the_side_to_move_is_the_winner() {
    let mut game = game_for("X");
    assert!(game.human_move(0, 0));
    assert!(game.computer_move(1, 0));
    assert!(game.human_move(0, 1));
    assert!(game.computer_move(1, 1));
    assert!(game.human_move(2, 2));
    assert_eq!(game.current_player(), Player::Computer);
    assert!(game.computer_move(1, 2));
    assert_eq!(game.status(), GameStatus::InProgress);
    assert_eq!(game.current_player(), Player::Human);
    assert!(game.human_move(2, 0));
    assert_eq!(game.status(), GameStatus::Over);
    assert_eq!(game.result(), GameResult::Win);
    assert_eq!(game.winner(), Player::Human);
    assert!(game.computer_move(2, 1));
    assert_eq!(game.result(), GameResult::Win);
    assert_eq!(game.winner(), Player::Human);
    assert_eq!(game.current_player(), Player::Human);
}

#[test]
fn a_game_that_is_over_stays_over() {
    let mut game = game_for("X");
    game.quit();
    assert!(game.human_move(0, 0));
    assert_eq!(game.status(), GameStatus::Over);
    assert!(game.computer_move(0, 1));
    assert_eq!(game.status(), GameStatus::Over);
    assert!(!game.check_winner());
    assert_eq!(game.status(), GameStatus::Over);
    assert_eq!(game.result(), GameResult::Draw);
}

#[test]
fn a_blank_as_the_mark_leaves_the_cell_blank() {
    let mut game = game_for(" ");
    assert!(game.human_move(1, 1));
    assert_eq!(game.board().rows(), rows_of([[" ", " ", " "], [" ", " ", " "], [" ", " ", " "]]));
    assert_eq!(game.current_player(), Player::Computer);
    assert!(game.computer_move(1, 1));
    assert_eq!(game.board().rows(), rows_of([[" ", " ", " "], [" ", "X", " "], [" ", " ", " "]]));
}

#[test]
fn computer_turn_places_one_mark_on_a_blank_board() {
    let mut game = game_for("X");
    let cell = game.computer_turn(1);
    let (row, col) = cell.expect("every cell is blank");
    assert!(row < 3 && col < 3);
    let rows = game.board().rows();
    for r in 0..3 {
        for c in 0..3 {
            if (r, c) == (row, col) {
                assert_eq!(rows[r][c], "O");
            } else {
                assert_eq!(rows[r][c], " ");
            }
        }
    }
    assert_eq!(game.current_player(), Player::Human);
    assert_eq!(game.status(), GameStatus::InProgress);
}

#[test]
fn computer_turn_draws_all_over_the_board() {
    let mut seen = [[false; 3]; 3];
    for _ in 0..2000 {
        let mut game = game_for("O");
        let (row, col) = game.computer_turn(1).expect("every cell is blank");
        assert!(row < 3 && col < 3);
        assert_eq!(game.board().cell(row, col), "X");
        seen[row][col] = true;
    }
    assert_eq!(seen, [[true; 3]; 3]);
}

#[test]
fn computer_turn_finds_the_one_blank_cell() {
    let mut game = game_for("X");
    assert!(game.human_move(0, 0));
    assert!(game.computer_move(0, 1));
    assert!(game.human_move(0, 2));
    assert!(game.computer_move(1, 0));
    assert!(game.human_move(1, 1));
    assert!(game.computer_move(1, 2));
    assert!(game.human_move(2, 0));
    assert!(game.computer_move(2, 1));
    assert_eq!(game.board().rows(), rows_of([["X", "O", "X"], ["O", "X", "O"], ["X", "O", " "]]));
    assert_eq!(game.computer_turn(1_000_000), Some((2, 2)));
    assert_eq!(game.board().rows(), rows_of([["X", "O", "X"], ["O", "X", "O"], ["X", "O", "O"]]));
    assert_eq!(game.current_player(), Player::Human);
}

#[test]
fn computer_turn_without_draws_does_nothing() {
    let mut game = game_for("X");
    assert!(game.human_move(0, 0));
    let before = snapshot(&game);
    assert_eq!(game.computer_turn(0), None);
    assert_eq!(snapshot(&game), before);
}

#[test]
fn computer_turn_gives_up_on_a_full_board() {
    let mut game = game_for("X");
    for r in 0..3 {
        for c in 0..3 {
            assert!(game.human_move(r, c));
        }
    }
    let before = snapshot(&game);
    assert_eq!(game.computer_turn(500), None);
    assert_eq!(snapshot(&game), before);
}

#[test]
fn human_step_places_rejects_and_quits() {
    let mut game = game_for("X");
    assert_eq!(game.human_step(MoveInput::Cell { row: 0, col: 2 }), HumanTurn::Placed);
    assert_eq!(game.board().cell(0, 2), "X");
    assert_eq!(game.human_step(MoveInput::Cell { row: 0, col: 2 }), HumanTurn::Rejected);
    assert_eq!(game.status(), GameStatus::InProgress);
    assert_eq!(game.human_step(MoveInput::Quit), HumanTurn::Quit);
    assert_eq!(game.status(), GameStatus::Over);
}

#[test]
fn human_turn_reads_the_line() {
    let mut game = game_for("X");
    assert_eq!(game.human_turn("1,1\n"), Ok(HumanTurn::Placed));
    assert_eq!(game.board().rows(), rows_of([[" ", " ", " "], [" ", "X", " "], [" ", " ", " "]]));
    assert_eq!(game.current_player(), Player::Computer);
    assert_eq!(game.human_turn(" 1,1 \n"), Ok(HumanTurn::Rejected));
    assert_eq!(game.current_player(), Player::Computer);
    assert_eq!(game.human_turn("0,2,7\n"), Ok(HumanTurn::Placed));
    assert_eq!(game.board().rows(), rows_of([[" ", " ", "X"], [" ", "X", " "], [" ", " ", " "]]));
    assert_eq!(game.status(), GameStatus::InProgress);
    assert_eq!(game.human_turn("e\n"), Ok(HumanTurn::Quit));
    assert_eq!(game.status(), GameStatus::Over);
    assert_eq!(game.board().rows(), rows_of([[" ", " ", "X"], [" ", "X", " "], [" ", " ", " "]]));
    assert_eq!(game.result(), GameResult::Draw);
}

#[test]
fn human_turn_refuses_what_is_no_move() {
    let mut game = game_for("X");
    assert!(game.human_move(0, 0));
    let before = snapshot(&game);
    assert_eq!(game.human_turn("\n"), Err(MoveError::Malformed));
    assert_eq!(game.human_turn("1\n"), Err(MoveError::Malformed));
    assert_eq!(game.human_turn("1, 2\n"), Err(MoveError::Malformed));
    assert_eq!(game.human_turn("one,two\n"), Err(MoveError::Malformed));
    assert_eq!(game.human_turn("quit\n"), Err(MoveError::Malformed));
    assert_eq!(game.human_turn("3,0\n"), Err(MoveError::OutOfRange));
    assert_eq!(game.human_turn("0,3\n"), Err(MoveError::OutOfRange));
    assert_eq!(game.human_turn("0,-1\n"), Err(MoveError::Malformed));
    assert_eq!(snapshot(&game), before);
}

#[test]
fn result_is_draw_while_no_mark_has_won() {
    let mut game = game_for("X");
    let moves = [(0, 0), (0, 1), (1, 1), (2, 2), (2, 1), (1, 0)];
    for (turn, (row, col)) in moves.iter().enumerate() {
        if turn % 2 == 0 {
            assert!(game.human_move(*row, *col));
        } else {
            assert!(game.computer_move(*row, *col));
        }
        assert_eq!(game.result(), GameResult::Draw);
        assert_eq!(game.status(), GameStatus::InProgress);
        assert_eq!(game.winner(), Player::Human);
    }
}

#[test]
fn nobody_is_to_move_once_the_game_is_over() {
    let mut game = game_for("X");
    assert_eq!(game.to_move(), Some(Player::Human));
    assert!(game.human_move(0, 0));
    assert_eq!(game.to_move(), Some(Player::Computer));
    assert!(game.computer_move(0, 1));
    assert_eq!(game.to_move(), Some(Player::Human));
    game.quit();
    assert_eq!(game.to_move(), None);
    assert_eq!(game.current_player(), Player::Human);
}

#[test]
fn a_game_in_turn_always_has_room() {
    for mark in ["X", "O", "Z", " "] {
        let mut game = game_for(mark);
        let mut turns = 0;
        while let Some(player) = game.to_move() {
            assert!(game.board().has_blank());
            match player {
                Player::Human => {
                    let mut placed = false;
                    for r in 0..3 {
                        for c in 0..3 {
                            if !placed && game.board().is_blank(r, c) {
                                placed = game.human_move(r, c);
                            }
                        }
                    }
                    assert!(placed);
                }
                Player::Computer => {
                    while game.computer_turn(1).is_none() {}
                }
            }
            turns += 1;
            assert!(turns <= 9);
        }
        assert_eq!(game.status(), GameStatus::Over);
        assert_ne!(game.result(), GameResult::Draw);
    }
}
