use mini_games_hub::board::Board;
use mini_games_hub::input::{Frame, Keys};
use mini_games_hub::piece::{PieceKind, Tetromino};
use mini_games_hub::shell::Game;
use mini_games_hub::tetris::{Phase, PieceSource, TetrisGame};

fn keys() -> Keys {
    Keys::none()
}

fn frame(keys: Keys, now: u64) -> Frame {
    Frame { keys, now, width: 640, height: 480 }
}

fn snapshot(board: &Board) -> Vec<Vec<Option<PieceKind>>> {
    (0..board.rows()).map(|r| (0..board.cols()).map(|c| board.cell(r, c)).collect()).collect()
}

/// Fills `row` but for the listed columns.
fn fill_row_except(board: &mut Board, row: usize, holes: &[usize]) {
    let cells: Vec<(usize, usize)> =
        (0..board.cols()).filter(|c| !holes.contains(c)).map(|c| (row, c)).collect();
    board.lock(&cells, PieceKind::Z);
}

/// Lets the clock run, one due drop per step, until the piece has settled.
fn drop_until_locked(game: &mut TetrisGame) -> u64 {
    let mut now = 0;
    let score = game.score();
    let before = snapshot(game.board());
    for _ in 0..100 {
        now += 500;
        game.update(now);
        if snapshot(game.board()) != before || game.score() != score {
            return now;
        }
    }
    panic!("the piece never settled");
}

#[test]
fn new_game_starts_on_an_empty_board() {
    let game = TetrisGame::new();
    assert_eq!(game.board().rows(), 20);
    assert_eq!(game.board().cols(), 10);
    assert_eq!(snapshot(game.board()), vec![vec![None; 10]; 20]);
    assert_eq!(game.score(), 0);
    assert_eq!(game.phase(), Phase::Falling);
    assert_eq!(game.piece_pos(), (0, 3));
    let kind = game.current_piece().kind();
    assert_eq!(game.current_piece().shape(), Tetromino::catalog(kind).shape());
}

/// Pushes the piece down as far as it goes.
fn sink(game: &mut TetrisGame) {
    for _ in 0..40 {
        game.handle_input(&Keys { down: true, ..keys() });
    }
}

#[test]
fn scripted_game_spawns_the_given_pieces_in_order() {
    let script = vec![PieceKind::S, PieceKind::L, PieceKind::I, PieceKind::I, PieceKind::Z];
    let mut game = TetrisGame::scripted(Board::new(20, 10), PieceKind::T, script.clone());
    assert_eq!(game.current_piece().kind(), PieceKind::T);
    for expected in script {
        sink(&mut game);
        assert_eq!(game.phase(), Phase::Falling);
        game.lock_piece();
        assert_eq!(game.current_piece().kind(), expected);
        assert_eq!(game.current_piece().shape(), Tetromino::catalog(expected).shape());
        assert_eq!(game.piece_pos(), (0, 3));
        assert_eq!(game.phase(), Phase::Falling);
    }
}

#[test]
fn lock_writes_the_piece_where_it_stands() {
    let mut game = TetrisGame::scripted(Board::new(20, 10), PieceKind::S, vec![PieceKind::O]);
    game.handle_input(&Keys { right: true, down: true, ..keys() });
    assert_eq!(game.piece_pos(), (1, 4));
    game.lock_piece();
    let grid = snapshot(game.board());
    for r in 0..20 {
        for c in 0..10 {
            // the S form: . x x / x x .
            let hit = (r == 1 && (c == 5 || c == 6)) || (r == 2 && (c == 4 || c == 5));
            assert_eq!(grid[r][c], if hit { Some(PieceKind::S) } else { None });
        }
    }
    assert_eq!(game.score(), 0);
    assert_eq!(game.phase(), Phase::Falling);
}

#[test]
fn piece_source_hands_out_its_script_first() {
    let mut source = PieceSource::scripted(vec![PieceKind::J, PieceKind::J, PieceKind::O]);
    assert_eq!(source.draw(), PieceKind::J);
    assert_eq!(source.draw(), PieceKind::J);
    assert_eq!(source.draw(), PieceKind::O);
    let after = source.draw();
    assert!(after.index() < 7);
    let mut chance = PieceSource::random();
    assert!(chance.draw().index() < 7);
}

#[test]
fn position_test_knows_walls_floor_and_settled_cells() {
    let mut board = Board::new(20, 10);
    board.lock(&vec![(5, 4)], PieceKind::I);
    let game = TetrisGame::scripted(board, PieceKind::O, vec![]);
    assert!(game.is_valid_position(0, 0));
    assert!(game.is_valid_position(0, -3));
    assert!(!game.is_valid_position(0, -4));
    assert!(game.is_valid_position(0, 5));
    assert!(!game.is_valid_position(0, 6));
    assert!(game.is_valid_position(18, 0));
    assert!(!game.is_valid_position(19, 0));
    assert!(game.is_valid_position(3, 0));
    assert!(!game.is_valid_position(4, 0));
    assert!(!game.is_valid_position(5, 1));
    assert!(game.is_valid_position(5, 2));
    // rows above the top edge are not looked up, but the columns still count
    assert!(game.is_valid_position(-5, 0));
    assert!(!game.is_valid_position(-5, -4));
    assert!(!game.is_valid_position(i32::MAX, 0));
    assert!(!game.is_valid_position(0, i32::MIN));
}

#[test]
fn keys_move_the_piece_one_step_each() {
    let mut game = TetrisGame::scripted(Board::new(20, 10), PieceKind::T, vec![]);
    game.handle_input(&Keys { left: true, ..keys() });
    assert_eq!(game.piece_pos(), (0, 2));
    game.handle_input(&Keys { right: true, ..keys() });
    game.handle_input(&Keys { right: true, ..keys() });
    assert_eq!(game.piece_pos(), (0, 4));
    game.handle_input(&Keys { down: true, ..keys() });
    assert_eq!(game.piece_pos(), (1, 4));
    game.handle_input(&Keys { left: true, right: true, ..keys() });
    assert_eq!(game.piece_pos(), (1, 4));
    game.handle_input(&Keys { left: true, down: true, ..keys() });
    assert_eq!(game.piece_pos(), (2, 3));
    game.handle_input(&keys());
    assert_eq!(game.piece_pos(), (2, 3));
}

#[test]
fn moves_into_a_wall_are_dropped() {
    let mut game = TetrisGame::scripted(Board::new(20, 10), PieceKind::I, vec![]);
    for _ in 0..10 {
        game.handle_input(&Keys { left: true, ..keys() });
    }
    assert_eq!(game.piece_pos(), (0, 0));
    for _ in 0..20 {
        game.handle_input(&Keys { right: true, ..keys() });
    }
    assert_eq!(game.piece_pos(), (0, 6));
    for _ in 0..30 {
        game.handle_input(&Keys { down: true, ..keys() });
    }
    assert_eq!(game.piece_pos(), (19, 6));
    assert_eq!(game.phase(), Phase::Falling);
    assert_eq!(snapshot(game.board()), vec![vec![None; 10]; 20]);
}

#[test]
fn turn_swaps_the_shape_where_it_fits() {
    let mut game = TetrisGame::scripted(Board::new(20, 10), PieceKind::I, vec![]);
    game.rotate_piece();
    assert_eq!(game.current_piece().shape(), &vec![vec![true]; 4]);
    assert_eq!(game.piece_pos(), (0, 3));
    game.handle_input(&Keys { up: true, ..keys() });
    assert_eq!(game.current_piece().shape(), &vec![vec![true; 4]]);
}

#[test]
fn turn_that_does_not_fit_is_dropped_without_a_kick() {
    let mut game = TetrisGame::scripted(Board::new(20, 10), PieceKind::I, vec![]);
    game.rotate_piece();
    for _ in 0..6 {
        game.handle_input(&Keys { right: true, ..keys() });
    }
    assert_eq!(game.piece_pos(), (0, 9));
    // the bar would reach past the right wall
    game.rotate_piece();
    assert_eq!(game.current_piece().shape(), &vec![vec![true]; 4]);
    assert_eq!(game.piece_pos(), (0, 9));
    // and past the floor
    let mut low = TetrisGame::scripted(Board::new(20, 10), PieceKind::I, vec![]);
    for _ in 0..19 {
        low.handle_input(&Keys { down: true, ..keys() });
    }
    low.rotate_piece();
    assert_eq!(low.current_piece().shape(), &vec![vec![true; 4]]);
    assert_eq!(low.piece_pos(), (19, 3));
    // and into a settled cell
    let mut board = Board::new(20, 10);
    board.lock(&vec![(2, 3)], PieceKind::O);
    let mut blocked = TetrisGame::scripted(board, PieceKind::I, vec![]);
    blocked.rotate_piece();
    assert_eq!(blocked.current_piece().shape(), &vec![vec![true; 4]]);
}

#[test]
fn gravity_waits_for_the_drop_interval() {
    let mut game = TetrisGame::scripted(Board::new(20, 10), PieceKind::O, vec![]);
    assert!(!game.update(0));
    assert_eq!(game.piece_pos(), (0, 3));
    assert!(!game.update(499));
    assert_eq!(game.piece_pos(), (0, 3));
    assert!(!game.update(500));
    assert_eq!(game.piece_pos(), (1, 3));
    assert!(!game.update(999));
    assert_eq!(game.piece_pos(), (1, 3));
    assert!(!game.update(1000));
    assert_eq!(game.piece_pos(), (2, 3));
    // a long pause is still one drop
    assert!(!game.update(60_000));
    assert_eq!(game.piece_pos(), (3, 3));
    // a clock that runs backwards drops nothing
    assert!(!game.update(100));
    assert_eq!(game.piece_pos(), (3, 3));
}

#[test]
fn piece_settles_on_the_floor_and_the_next_one_spawns() {
    let mut game = TetrisGame::scripted(Board::new(20, 10), PieceKind::O, vec![PieceKind::T]);
    for step in 1..=18 {
        assert!(!game.update(step * 500));
        assert_eq!(game.piece_pos(), (step as i32, 3));
    }
    assert!(!game.update(19 * 500));
    let grid = snapshot(game.board());
    for r in 0..20 {
        for c in 0..10 {
            let settled = (r == 18 || r == 19) && (c == 3 || c == 4);
            assert_eq!(grid[r][c], if settled { Some(PieceKind::O) } else { None });
        }
    }
    assert_eq!(game.score(), 0);
    assert_eq!(game.current_piece().kind(), PieceKind::T);
    assert_eq!(game.current_piece().shape(), Tetromino::catalog(PieceKind::T).shape());
    assert_eq!(game.piece_pos(), (0, 3));
    assert_eq!(game.phase(), Phase::Falling);
}

#[test]
fn clearing_one_row_scores_100() {
    let mut board = Board::new(20, 10);
    fill_row_except(&mut board, 19, &[3, 4, 5, 6]);
    let mut game = TetrisGame::scripted(board, PieceKind::I, vec![PieceKind::O]);
    drop_until_locked(&mut game);
    assert_eq!(game.score(), 100);
    assert_eq!(snapshot(game.board()), vec![vec![None; 10]; 20]);
}

#[test]
fn clearing_two_rows_scores_400() {
    let mut board = Board::new(20, 10);
    fill_row_except(&mut board, 18, &[3, 4]);
    fill_row_except(&mut board, 19, &[3, 4]);
    board.lock(&vec![(17, 9)], PieceKind::L);
    let mut game = TetrisGame::scripted(board, PieceKind::O, vec![PieceKind::O]);
    drop_until_locked(&mut game);
    assert_eq!(game.score(), 400);
    let grid = snapshot(game.board());
    for r in 0..20 {
        for c in 0..10 {
            assert_eq!(grid[r][c], if (r, c) == (19, 9) { Some(PieceKind::L) } else { None });
        }
    }
}

#[test]
fn clearing_three_rows_scores_900() {
    let mut board = Board::new(20, 10);
    fill_row_except(&mut board, 17, &[3, 4]);
    fill_row_except(&mut board, 18, &[3]);
    fill_row_except(&mut board, 19, &[3]);
    let mut game = TetrisGame::scripted(board, PieceKind::J, vec![PieceKind::O]);
    game.rotate_piece();
    assert_eq!(game.current_piece().height(), 3);
    drop_until_locked(&mut game);
    assert_eq!(game.score(), 900);
    assert_eq!(snapshot(game.board()), vec![vec![None; 10]; 20]);
}

#[test]
fn clearing_four_rows_scores_1600() {
    let mut board = Board::new(20, 10);
    for r in 16..20 {
        fill_row_except(&mut board, r, &[3]);
    }
    let mut game = TetrisGame::scripted(board, PieceKind::I, vec![PieceKind::O]);
    game.rotate_piece();
    drop_until_locked(&mut game);
    assert_eq!(game.score(), 1600);
    assert_eq!(snapshot(game.board()), vec![vec![None; 10]; 20]);
}

#[test]
fn scores_add_up_over_several_locks() {
    let mut board = Board::new(20, 10);
    fill_row_except(&mut board, 19, &[3, 4]);
    fill_row_except(&mut board, 18, &[3, 4]);
    fill_row_except(&mut board, 17, &[3, 4, 5, 6]);
    let script = vec![PieceKind::I, PieceKind::T];
    let mut game = TetrisGame::scripted(board, PieceKind::O, script);
    drop_until_locked(&mut game);
    assert_eq!(game.score(), 400);
    drop_until_locked(&mut game);
    assert_eq!(game.score(), 500);
    assert_eq!(snapshot(game.board()), vec![vec![None; 10]; 20]);
    drop_until_locked(&mut game);
    assert_eq!(game.score(), 500);
    assert_eq!(game.board().cell(19, 4), Some(PieceKind::T));
}

#[test]
fn spawn_collision_ends_the_game() {
    let mut board = Board::new(20, 10);
    board.lock(&vec![(2, 3), (2, 4)], PieceKind::S);
    let mut game = TetrisGame::scripted(board, PieceKind::O, vec![PieceKind::T]);
    assert_eq!(game.phase(), Phase::Falling);
    assert!(!game.tick(&frame(keys(), 100)));
    assert_eq!(game.phase(), Phase::Falling);
    // the drop is due, the piece rests on the settled cells and settles; the
    // next piece meets it at the spawn place
    let exit = game.tick(&frame(keys(), 500));
    assert!(!exit);
    assert_eq!(game.phase(), Phase::GameOver);
    assert_eq!(game.board().cell(0, 3), Some(PieceKind::O));
    assert_eq!(game.board().cell(1, 4), Some(PieceKind::O));
    assert_eq!(game.current_piece().kind(), PieceKind::T);
    assert_eq!(game.piece_pos(), (0, 3));
    assert!(!game.is_valid_position(0, 0));
}

#[test]
fn space_leaves_in_the_frame_that_ends_the_game() {
    let mut board = Board::new(20, 10);
    board.lock(&vec![(2, 3), (2, 4)], PieceKind::S);
    let mut game = TetrisGame::scripted(board, PieceKind::O, vec![PieceKind::T]);
    assert!(!game.tick(&frame(Keys { space: true, ..keys() }, 100)));
    assert!(game.tick(&frame(Keys { space: true, ..keys() }, 500)));
    assert_eq!(game.phase(), Phase::GameOver);
}

#[test]
fn game_over_takes_no_gameplay_input() {
    let mut board = Board::new(20, 10);
    board.lock(&vec![(2, 3), (2, 4)], PieceKind::S);
    let mut game = TetrisGame::scripted(board, PieceKind::O, vec![PieceKind::T, PieceKind::I]);
    game.tick(&frame(keys(), 500));
    assert_eq!(game.phase(), Phase::GameOver);
    let grid = snapshot(game.board());
    let all = Keys { left: true, right: true, down: true, up: true, enter: true, ..keys() };
    for step in 2..10 {
        assert!(!game.tick(&frame(all, step * 500)));
        assert_eq!(game.phase(), Phase::GameOver);
        assert_eq!(game.piece_pos(), (0, 3));
        assert_eq!(game.current_piece().kind(), PieceKind::T);
        assert_eq!(game.current_piece().shape(), Tetromino::catalog(PieceKind::T).shape());
        assert_eq!(snapshot(game.board()), grid);
        assert_eq!(game.score(), 0);
    }
    assert!(game.update(100_000));
    assert!(game.tick(&frame(Keys { space: true, ..keys() }, 100_500)));
    assert!(game.tick(&frame(Keys { escape: true, ..keys() }, 101_000)));
}

#[test]
fn a_first_piece_that_does_not_fit_is_game_over_at_once() {
    let mut board = Board::new(20, 10);
    board.lock(&vec![(0, 4)], PieceKind::S);
    let game = TetrisGame::scripted(board, PieceKind::T, vec![]);
    assert_eq!(game.phase(), Phase::GameOver);
    let narrow = TetrisGame::scripted(Board::new(20, 3), PieceKind::I, vec![]);
    assert_eq!(narrow.phase(), Phase::GameOver);
    assert_eq!(narrow.piece_pos(), (0, -1));
}

#[test]
fn escape_leaves_without_touching_the_session() {
    let mut game = TetrisGame::scripted(Board::new(20, 10), PieceKind::L, vec![]);
    let all = Keys { escape: true, left: true, down: true, up: true, ..keys() };
    assert!(game.tick(&frame(all, 5_000)));
    assert_eq!(game.piece_pos(), (0, 3));
    assert_eq!(game.current_piece().shape(), Tetromino::catalog(PieceKind::L).shape());
    // the timer was not touched either: the next frame drops at once
    assert!(!game.tick(&frame(keys(), 500)));
    assert_eq!(game.piece_pos(), (1, 3));
}

#[test]
fn tick_applies_keys_before_gravity() {
    let mut game = TetrisGame::scripted(Board::new(20, 10), PieceKind::O, vec![]);
    let both = Keys { left: true, down: true, ..keys() };
    assert!(!game.tick(&frame(both, 500)));
    assert_eq!(game.piece_pos(), (2, 2));
    assert!(!game.tick(&frame(both, 600)));
    assert_eq!(game.piece_pos(), (3, 1));
}

#[test]
fn reset_starts_over() {
    let mut board = Board::new(20, 10);
    fill_row_except(&mut board, 19, &[3, 4, 5, 6]);
    let mut game = TetrisGame::scripted(board, PieceKind::I, vec![PieceKind::O, PieceKind::S]);
    let now = drop_until_locked(&mut game);
    assert_eq!(game.score(), 100);
    game.update(now + 500);
    game.handle_input(&Keys { left: true, ..keys() });
    game.reset();
    assert_eq!(game.score(), 0);
    assert_eq!(game.phase(), Phase::Falling);
    assert_eq!(game.piece_pos(), (0, 3));
    assert_eq!(game.current_piece().kind(), PieceKind::S);
    assert_eq!(game.board().rows(), 20);
    assert_eq!(game.board().cols(), 10);
    assert_eq!(snapshot(game.board()), vec![vec![None; 10]; 20]);
    // the timer is back at zero
    assert!(!game.update(499));
    assert_eq!(game.piece_pos(), (0, 3));
    assert!(!game.update(500));
    assert_eq!(game.piece_pos(), (1, 3));
}

#[test]
fn reset_revives_a_session_that_is_over() {
    let mut board = Board::new(20, 10);
    board.lock(&vec![(2, 3), (2, 4)], PieceKind::S);
    let mut game = TetrisGame::scripted(board, PieceKind::O, vec![PieceKind::T, PieceKind::I]);
    game.tick(&frame(keys(), 500));
    assert_eq!(game.phase(), Phase::GameOver);
    game.reset();
    assert_eq!(game.phase(), Phase::Falling);
    assert_eq!(game.current_piece().kind(), PieceKind::I);
    assert_eq!(snapshot(game.board()), vec![vec![None; 10]; 20]);
}

/// Every occupied cell of the piece lies within the columns and above the
/// floor, and on no settled cell.
fn piece_is_clear(game: &TetrisGame) -> bool {
    let (row, col) = game.piece_pos();
    let piece = game.current_piece();
    for (i, line) in piece.shape().iter().enumerate() {
        for (j, &cell) in line.iter().enumerate() {
            if !cell {
                continue;
            }
            let r = row + i as i32;
            let c = col + j as i32;
            if c < 0 || c >= 10 || r >= 20 {
                return false;
            }
            if r >= 0 && game.board().cell(r as usize, c as usize).is_some() {
                return false;
            }
        }
    }
    true
}

#[test]
fn accepted_moves_never_overlap_or_leave_the_columns() {
    let kinds = [
        PieceKind::I,
        PieceKind::O,
        PieceKind::T,
        PieceKind::S,
        PieceKind::Z,
        PieceKind::J,
        PieceKind::L,
    ];
    let mut state: u64 = 0x2545_f491_4f6c_dd1d;
    let mut next = move || {
        state = state.wrapping_mul(6364136223846793005).wrapping_add(1442695040888963407);
        (state >> 33) as usize
    };
    let script: Vec<PieceKind> = (0..400).map(|_| kinds[next() % 7]).collect();
    let mut game = TetrisGame::scripted(Board::new(20, 10), PieceKind::T, script);
    let mut now = 0;
    let mut locks = 0;
    for _ in 0..5000 {
        if game.phase() == Phase::GameOver {
            break;
        }
        assert!(piece_is_clear(&game));
        assert!(game.is_valid_position(0, 0));
        let bits = next();
        let pressed = Keys {
            left: bits & 1 != 0,
            right: bits & 2 != 0,
            down: bits & 4 != 0,
            up: bits & 8 != 0,
            ..keys()
        };
        now += 100 + (bits % 5) as u64 * 100;
        let before = snapshot(game.board());
        let score = game.score();
        game.tick(&frame(pressed, now));
        if snapshot(game.board()) != before {
            locks += 1;
        }
        assert!(game.score() >= score);
        assert_eq!(game.board().rows(), 20);
        assert_eq!(game.board().cols(), 10);
    }
    assert!(locks > 10);
    assert_eq!(game.phase(), Phase::GameOver);
    assert!(!piece_is_clear(&game));
}
