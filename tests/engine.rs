use connect_four::board::{Board, Cell, MoveError, Player, COLUMNS, ROWS};
use connect_four::game::{Game, Phase};
use connect_four::opponent::{choose_column, sample_column};
use connect_four::outcome::{game_finished, game_won, Outcome};

use Player::{PlayerOne, PlayerTwo};

fn fill(game: &mut Game, col: usize, tokens: &[Player]) {
    for &p in tokens {
        assert_eq!(game.add_coin_to_column(col, p), Ok(()));
    }
}

fn fill_column_alternating(game: &mut Game, col: usize) {
    for k in 0..ROWS {
        let p = if k % 2 == 0 { PlayerOne } else { PlayerTwo };
        assert_eq!(game.add_coin_to_column(col, p), Ok(()));
    }
}

/// A full grid without four in a row for either player.
fn draw_game() -> Game {
    let columns: [[u8; 6]; 7] = [
        [2, 1, 2, 1, 2, 1],
        [1, 2, 2, 1, 1, 2],
        [2, 1, 1, 2, 2, 1],
        [2, 1, 2, 1, 1, 2],
        [2, 1, 1, 2, 2, 1],
        [1, 2, 1, 2, 1, 2],
        [2, 1, 1, 1, 2, 2],
    ];
    let mut game = Game::new();
    for (c, column) in columns.iter().enumerate() {
        for &t in column.iter() {
            let p = if t == 1 { PlayerOne } else { PlayerTwo };
            assert_eq!(game.add_coin_to_column(c, p), Ok(()));
        }
    }
    game
}

#[test]
fn new_game_is_empty_and_awaits_human() {
    let game = Game::new();
    assert_eq!(game.current_outcome(), Outcome::InProgress);
    assert_eq!(game.phase(), Phase::AwaitingHumanMove);
    let snap = game.current_board_snapshot();
    assert_eq!(snap.len(), COLUMNS);
    for column in snap.iter() {
        assert_eq!(column.len(), ROWS);
        assert!(column.iter().all(|&x| x == Cell::Empty));
    }
}

#[test]
fn lowest_empty_row_rises_after_each_drop() {
    let mut game = Game::new();
    let mut previous = game.board().lowest_empty_row(2);
    assert_eq!(previous, Some(0));
    for k in 0..ROWS {
        let p = if k % 2 == 0 { PlayerOne } else { PlayerTwo };
        assert_eq!(game.add_coin_to_column(2, p), Ok(()));
        let now = game.board().lowest_empty_row(2);
        match now {
            Some(r) => assert!(r > previous.unwrap()),
            None => assert_eq!(k, ROWS - 1),
        }
        previous = now;
    }
    assert_eq!(game.board().lowest_empty_row(2), None);
}

#[test]
fn drop_lands_on_lowest_empty_cell() {
    let mut game = Game::new();
    fill(&mut game, 4, &[PlayerTwo, PlayerOne]);
    let b = game.board();
    assert_eq!(b.cell(4, 0), Cell::Owned(PlayerTwo));
    assert_eq!(b.cell(4, 1), Cell::Owned(PlayerOne));
    assert_eq!(b.cell(4, 2), Cell::Empty);
    assert_eq!(b.cell(3, 0), Cell::Empty);
    assert_eq!(b.lowest_empty_row(4), Some(2));
}

#[test]
fn failed_moves_leave_board_unchanged() {
    let mut game = Game::new();
    fill_column_alternating(&mut game, 0);
    fill(&mut game, 3, &[PlayerOne]);
    let before = game.current_board_snapshot();
    assert_eq!(game.add_coin_to_column(0, PlayerOne), Err(MoveError::ColumnFull));
    assert_eq!(game.current_board_snapshot(), before);
    assert_eq!(game.add_coin_to_column(9, PlayerTwo), Err(MoveError::ColumnOutOfRange));
    assert_eq!(game.current_board_snapshot(), before);
}

#[test]
fn evaluate_twice_gives_same_outcome() {
    let mut game = Game::new();
    fill(&mut game, 1, &[PlayerOne, PlayerTwo, PlayerOne]);
    let first = game_finished(game.board());
    let second = game_finished(game.board());
    assert_eq!(first, second);
    assert_eq!(first, Outcome::InProgress);
}

#[test]
fn reset_then_snapshot_is_blank() {
    let mut game = Game::new();
    fill(&mut game, 5, &[PlayerOne, PlayerTwo]);
    assert_eq!(game.submit_human_move(3).is_ok(), true);
    game.reset_game();
    let snap = game.current_board_snapshot();
    assert_eq!(snap.len(), COLUMNS);
    for column in snap.iter() {
        assert_eq!(column.len(), ROWS);
        assert!(column.iter().all(|&x| x == Cell::Empty));
    }
    assert_eq!(game.current_outcome(), Outcome::InProgress);
    assert_eq!(game.phase(), Phase::AwaitingHumanMove);
}

#[test]
fn four_drops_in_one_column_win() {
    let mut game = Game::new();
    for _ in 0..3 {
        assert_eq!(game.add_coin_to_column(0, PlayerOne), Ok(()));
        assert_eq!(game_finished(game.board()), Outcome::InProgress);
    }
    assert_eq!(game.add_coin_to_column(0, PlayerOne), Ok(()));
    assert_eq!(game_finished(game.board()), Outcome::Won(PlayerOne));
}

#[test]
fn full_board_without_four_is_draw() {
    let game = draw_game();
    assert!(!game_won(game.board(), PlayerOne));
    assert!(!game_won(game.board(), PlayerTwo));
    assert_eq!(game_finished(game.board()), Outcome::Draw);
}

#[test]
fn out_of_range_column_is_refused() {
    let mut game = Game::new();
    let before = game.current_board_snapshot();
    assert_eq!(game.submit_human_move(7), Err(MoveError::ColumnOutOfRange));
    assert_eq!(game.current_board_snapshot(), before);
    assert_eq!(game.phase(), Phase::AwaitingHumanMove);
}

#[test]
fn full_column_is_refused() {
    let mut game = Game::new();
    fill_column_alternating(&mut game, 0);
    let before = game.current_board_snapshot();
    assert_eq!(game.submit_human_move(0), Err(MoveError::ColumnFull));
    assert_eq!(game.current_board_snapshot(), before);
}

#[test]
fn moves_after_resolution_are_refused_until_reset() {
    let mut game = Game::new();
    fill(&mut game, 0, &[PlayerOne, PlayerOne, PlayerOne]);
    assert_eq!(game.submit_human_move(0), Ok(Outcome::Won(PlayerOne)));
    assert_eq!(game.phase(), Phase::Resolved(Outcome::Won(PlayerOne)));
    let before = game.current_board_snapshot();
    for col in 0..COLUMNS {
        assert_eq!(game.submit_human_move(col), Err(MoveError::GameAlreadyOver));
    }
    assert_eq!(game.add_coin_to_column(2, PlayerTwo), Err(MoveError::GameAlreadyOver));
    assert_eq!(game.current_board_snapshot(), before);
    game.reset_game();
    assert_eq!(game.phase(), Phase::AwaitingHumanMove);
    assert_eq!(game.current_outcome(), Outcome::InProgress);
    assert_eq!(game.submit_human_move(3).is_ok(), true);
}

#[test]
fn opponent_takes_the_only_open_column() {
    let mut game = Game::new();
    for col in 0..COLUMNS {
        if col != 4 {
            fill_column_alternating(&mut game, col);
        }
    }
    for _ in 0..50 {
        assert_eq!(choose_column(game.board()), Some(4));
    }
}

#[test]
fn opponent_on_full_board_has_no_column() {
    let game = draw_game();
    for _ in 0..10 {
        assert_eq!(choose_column(game.board()), None);
    }
}

#[test]
fn opponent_picks_only_open_columns() {
    let mut game = Game::new();
    fill_column_alternating(&mut game, 1);
    fill_column_alternating(&mut game, 5);
    let mut seen = [false; 7];
    for _ in 0..500 {
        let c = choose_column(game.board()).unwrap();
        assert!(c < COLUMNS && c != 1 && c != 5);
        seen[c] = true;
    }
    assert_eq!(seen, [true, false, true, true, true, false, true]);
}

#[test]
fn sample_column_removes_the_drawn_entry() {
    let mut game = Game::new();
    fill_column_alternating(&mut game, 2);
    let mut untried: Vec<usize> = vec![0, 1, 2, 3];
    assert_eq!(sample_column(game.board(), &mut untried, 2), None);
    assert_eq!(untried, vec![0, 1, 3]);
    assert_eq!(sample_column(game.board(), &mut untried, 2), Some(3));
    assert_eq!(untried, vec![0, 1]);
}

#[test]
fn human_move_is_answered_by_opponent() {
    let mut game = Game::new();
    assert_eq!(game.submit_human_move(3), Ok(Outcome::InProgress));
    let b = game.board();
    assert_eq!(b.cell(3, 0), Cell::Owned(PlayerOne));
    let mut ones = 0;
    let mut twos = 0;
    for c in 0..COLUMNS {
        for r in 0..ROWS {
            match b.cell(c, r) {
                Cell::Owned(PlayerOne) => ones += 1,
                Cell::Owned(PlayerTwo) => twos += 1,
                Cell::Empty => {}
            }
        }
    }
    assert_eq!((ones, twos), (1, 1));
    assert_eq!(game.phase(), Phase::AwaitingHumanMove);
}

#[test]
fn automated_move_without_column_is_draw() {
    let mut game = Game::new();
    game.apply_automated_move(None);
    assert_eq!(game.current_outcome(), Outcome::Draw);
    assert_eq!(game.phase(), Phase::Resolved(Outcome::Draw));
}

#[test]
fn automated_move_plays_given_column() {
    let mut game = Game::new();
    game.apply_automated_move(Some(6));
    assert_eq!(game.board().cell(6, 0), Cell::Owned(PlayerTwo));
    assert_eq!(game.current_outcome(), Outcome::InProgress);
    assert_eq!(game.phase(), Phase::AwaitingHumanMove);
}

#[test]
fn horizontal_run_wins() {
    let mut game = Game::new();
    for c in 2..6 {
        assert_eq!(game.add_coin_to_column(c, PlayerTwo), Ok(()));
    }
    assert!(game_won(game.board(), PlayerTwo));
    assert!(!game_won(game.board(), PlayerOne));
    assert_eq!(game_finished(game.board()), Outcome::Won(PlayerTwo));
}

#[test]
fn three_in_a_row_is_not_a_win() {
    let mut game = Game::new();
    for c in 4..7 {
        assert_eq!(game.add_coin_to_column(c, PlayerOne), Ok(()));
    }
    assert!(!game_won(game.board(), PlayerOne));
    assert_eq!(game_finished(game.board()), Outcome::InProgress);
}

#[test]
fn ascending_diagonal_wins() {
    let mut game = Game::new();
    fill(&mut game, 1, &[PlayerOne]);
    fill(&mut game, 2, &[PlayerTwo, PlayerOne]);
    fill(&mut game, 3, &[PlayerTwo, PlayerTwo, PlayerOne]);
    fill(&mut game, 4, &[PlayerTwo, PlayerOne, PlayerTwo, PlayerOne]);
    assert!(game_won(game.board(), PlayerOne));
    assert_eq!(game_finished(game.board()), Outcome::Won(PlayerOne));
}

#[test]
fn descending_diagonal_wins() {
    let mut game = Game::new();
    fill(&mut game, 3, &[PlayerOne, PlayerOne, PlayerTwo, PlayerTwo]);
    fill(&mut game, 4, &[PlayerOne, PlayerOne, PlayerTwo]);
    fill(&mut game, 5, &[PlayerOne, PlayerTwo]);
    fill(&mut game, 6, &[PlayerTwo]);
    assert!(game_won(game.board(), PlayerTwo));
    assert!(!game_won(game.board(), PlayerOne));
    assert_eq!(game_finished(game.board()), Outcome::Won(PlayerTwo));
}

#[test]
fn column_full_query_checks_range() {
    let mut game = Game::new();
    fill_column_alternating(&mut game, 6);
    let b = game.board();
    assert_eq!(b.is_column_full(6), Ok(true));
    assert_eq!(b.is_column_full(0), Ok(false));
    assert_eq!(b.is_column_full(7), Err(MoveError::ColumnOutOfRange));
    assert!(!b.is_column_empty(6));
    assert!(b.is_column_empty(0));
}

#[test]
fn board_reset_clears_cells() {
    let mut board = Board::new();
    board.reset();
    assert_eq!(board.lowest_empty_row(0), Some(0));
    assert_eq!(game_finished(&board), Outcome::InProgress);
    let snap = board.snapshot();
    assert!(snap.iter().all(|col| col.iter().all(|&x| x == Cell::Empty)));
}
