//! The board model and the lock/clear/scoring engine.

use rustris::game::Game;
use rustris::piece::{Piece, BOARD_HEIGHT, BOARD_WIDTH, EMPTY, GARBAGE_CELL, KIND_T};
use rustris::settings::Settings;
use rustris::types::{GameMode, LastMove};

fn test_settings() -> Settings {
    let mut s = Settings::default();
    s.line_clear_anim = false;
    s
}

fn make_game() -> Game {
    Game::new(GameMode::Versus, &test_settings(), 0)
}

fn setup_full_rows(game: &mut Game, count: usize) {
    for r in (BOARD_HEIGHT - count)..BOARD_HEIGHT {
        for c in 0..BOARD_WIDTH {
            game.set_cell(r, c, 1);
        }
    }
}

#[test]
fn mod_fits_empty_board() {
    let game = make_game();
    let piece = Piece::new(0);
    assert!(game.fits(&piece));
}

#[test]
fn mod_fits_occupied_cell() {
    let mut game = make_game();
    let p = Piece::new(KIND_T);
    let cells = p.cells();
    let (r, c) = *cells.iter().find(|&&(r, _)| r >= 0).unwrap();
    game.set_cell(r as usize, c as usize, 1);
    assert!(!game.fits(&p));
}

#[test]
fn mod_fits_out_of_bounds_left() {
    let game = make_game();
    let mut piece = Piece::new(0);
    piece.col = -5;
    assert!(!game.fits(&piece));
}

#[test]
fn mod_fits_out_of_bounds_right() {
    let game = make_game();
    let mut piece = Piece::new(0);
    piece.col = BOARD_WIDTH as i32;
    assert!(!game.fits(&piece));
}

#[test]
fn mod_fits_out_of_bounds_bottom() {
    let game = make_game();
    let mut piece = Piece::new(0);
    piece.row = BOARD_HEIGHT as i32;
    assert!(!game.fits(&piece));
}

#[test]
fn mod_receive_garbage_bottom_rows() {
    let mut game = make_game();
    game.receive_garbage(2, 3);
    for r in (BOARD_HEIGHT - 2)..BOARD_HEIGHT {
        for c in 0..BOARD_WIDTH {
            if c == 3 {
                assert_eq!(game.cell(r, c), EMPTY);
            } else {
                assert_eq!(game.cell(r, c), GARBAGE_CELL);
            }
        }
    }
    for c in 0..BOARD_WIDTH {
        assert_eq!(game.cell(0, c), EMPTY);
    }
}

#[test]
fn mod_receive_garbage_shifts_up() {
    let mut game = make_game();
    game.set_cell(BOARD_HEIGHT - 1, 0, 5);
    game.receive_garbage(1, 0);
    assert_eq!(game.cell(BOARD_HEIGHT - 2, 0), 5);
    assert_eq!(game.cell(BOARD_HEIGHT - 1, 0), EMPTY);
    assert_eq!(game.cell(BOARD_HEIGHT - 1, 1), GARBAGE_CELL);
}

#[test]
fn mod_receive_garbage_zero_noop() {
    let mut game = make_game();
    let board_before = game.board.clone();
    game.receive_garbage(0, 0);
    assert_eq!(game.board, board_before);
}

#[test]
fn mod_scoring_single() {
    let mut game = make_game();
    setup_full_rows(&mut game, 1);
    game.current = Piece::new(0);
    game.current.row = (BOARD_HEIGHT as i32) - 2;
    game.current.col = 0;
    game.lock_and_begin_clear(0);
    assert!(game.score >= 100);
}

#[test]
fn mod_scoring_tetris() {
    let mut game = make_game();
    setup_full_rows(&mut game, 4);
    game.current = Piece::new(0);
    game.current.row = (BOARD_HEIGHT as i32) - 5;
    game.lock_and_begin_clear(0);
    assert!(game.score >= 800);
    assert_eq!(game.lines, 4);
}

#[test]
fn mod_scoring_b2b_tetris() {
    let mut game = make_game();
    game.back_to_back = true;
    setup_full_rows(&mut game, 4);
    game.current = Piece::new(0);
    game.current.row = (BOARD_HEIGHT as i32) - 5;
    game.lock_and_begin_clear(0);
    assert!(game.score >= 1200);
}

#[test]
fn mod_scoring_combo() {
    let mut game = make_game();
    game.combo = 1;
    setup_full_rows(&mut game, 1);
    game.current = Piece::new(0);
    game.current.row = (BOARD_HEIGHT as i32) - 2;
    game.lock_and_begin_clear(0);
    assert!(game.score >= 200);
    assert_eq!(game.combo, 2);
}

#[test]
fn mod_scoring_tspin_detection() {
    let mut game = make_game();

    let t_row = (BOARD_HEIGHT as i32) - 1;
    let t_col = 4;
    game.current = Piece::new(KIND_T);
    game.current.row = t_row;
    game.current.col = t_col;
    game.current.rotation = 0;
    game.last_move = LastMove::Rotate;

    // Back corners are below the board, front-left occupied: three corners.
    let fr = (t_row - 1) as usize;
    game.set_cell(fr, (t_col - 1) as usize, 1);

    for c in 0..BOARD_WIDTH {
        if c != (t_col - 1) as usize && c != t_col as usize && c != (t_col + 1) as usize {
            game.set_cell(t_row as usize, c, 1);
        }
    }

    game.lock_and_begin_clear(0);
    if let Some(action) = &game.last_action {
        assert!(action.is_tspin);
    }
}

#[test]
fn mod_no_clear_resets_combo() {
    let mut game = make_game();
    game.combo = 5;
    game.current = Piece::new(0);
    game.current.row = 0;
    game.lock_and_begin_clear(0);
    assert_eq!(game.combo, -1);
}

#[test]
fn single_clear_scores_exactly_hundred_and_starts_combo() {
    let mut game = make_game();
    assert_eq!(game.level, 1);
    assert_eq!(game.combo, -1);
    assert!(!game.back_to_back);
    setup_full_rows(&mut game, 1);
    game.current = Piece::new(0);
    game.current.row = (BOARD_HEIGHT as i32) - 2;
    game.current.col = 0;
    game.lock_and_begin_clear(0);
    assert_eq!(game.score, 100);
    assert_eq!(game.combo, 0);
}

#[test]
fn b2b_tetris_scores_exactly_twelve_hundred_and_keeps_streak() {
    let mut game = make_game();
    game.back_to_back = true;
    setup_full_rows(&mut game, 4);
    game.current = Piece::new(0);
    game.current.row = (BOARD_HEIGHT as i32) - 5;
    game.current.col = 0;
    game.lock_and_begin_clear(0);
    assert_eq!(game.score, 1200);
    assert!(game.back_to_back);
    let action = game.last_action.as_ref().unwrap();
    assert!(action.is_back_to_back);
    assert_eq!(action.label, "B2B Tetris".to_string());
}

#[test]
fn spawn_fits_on_empty_board_for_all_seven_kinds() {
    let game = make_game();
    for kind in 0..7 {
        assert!(game.fits(&Piece::new(kind)));
    }
}

#[test]
fn combo_label_counts_the_streak() {
    let mut game = make_game();
    game.combo = 1;
    setup_full_rows(&mut game, 1);
    game.current = Piece::new(0);
    game.current.row = (BOARD_HEIGHT as i32) - 2;
    game.current.col = 0;
    game.lock_and_begin_clear(0);
    let action = game.last_action.as_ref().unwrap();
    assert_eq!(action.label, "Single Combo x2".to_string());
}

#[test]
fn hold_stashes_and_swaps_once_per_drop() {
    let mut game = make_game();
    let first_kind = game.current.kind;
    game.hold_piece();
    assert!(game.hold_used);
    assert_eq!(game.hold, Some(first_kind));
    let second_kind = game.current.kind;
    game.hold_piece();
    assert_eq!(game.hold, Some(first_kind));
    assert_eq!(game.current.kind, second_kind);
}

#[test]
fn ghost_row_reaches_the_floor_on_empty_board() {
    let mut game = make_game();
    game.current = Piece::new(0);
    assert_eq!(game.ghost_row(), (BOARD_HEIGHT as i32) - 1);
}

#[test]
fn hard_drop_scores_two_points_per_row() {
    let mut game = make_game();
    game.current = Piece::new(0);
    let dropped_rows = (BOARD_HEIGHT as i32 - 1) - game.current.row;
    let points = game.hard_drop(0);
    assert_eq!(points, 2 * dropped_rows as u32);
    assert_eq!(game.score, points);
}

#[test]
fn free_fall_tick_grounds_the_piece_and_arms_lock_delay() {
    let mut game = make_game();
    game.level = 19;
    game.current = Piece::new(0);
    game.tick(123);
    assert_eq!(game.current.row, (BOARD_HEIGHT as i32) - 1);
    assert_eq!(game.lock_delay, Some(123));
}

#[test]
fn check_are_spawns_after_grace_period() {
    let mut game = make_game();
    game.are_timer = Some(1000);
    assert!(!game.check_are(1050));
    assert!(game.in_are());
    assert!(game.check_are(1100));
    assert!(!game.in_are());
    assert_eq!(game.current.rotation, 0);
    assert!(!game.game_over);
}

#[test]
fn update_animation_walks_three_phases() {
    let mut game = Game::new(GameMode::Versus, &Settings::default(), 0);
    setup_full_rows(&mut game, 1);
    game.current = Piece::new(0);
    game.current.row = (BOARD_HEIGHT as i32) - 2;
    game.current.col = 0;
    game.lock_and_begin_clear(1000);
    assert!(game.is_animating());
    assert!(game.update_animation(1000));
    assert_eq!(game.line_clear_anim.as_ref().unwrap().phase, 0);
    assert!(game.update_animation(1150));
    assert_eq!(game.line_clear_anim.as_ref().unwrap().phase, 1);
    assert!(game.update_animation(1250));
    assert_eq!(game.line_clear_anim.as_ref().unwrap().phase, 2);
    assert!(!game.update_animation(1300));
    game.finish_clear(1300);
    assert!(!game.is_animating());
    assert!(game.in_are());
}

#[test]
fn garbage_rise_paces_rows_by_elapsed_time() {
    let mut game = make_game();
    game.begin_garbage_rise(
        vec![rustris::garbage::GarbageEvent { lines: 2, hole_column: 6 }],
        1000,
    );
    assert!(game.is_garbage_animating());
    assert!(game.update_garbage_animation(1040));
    assert_eq!(game.cell(BOARD_HEIGHT - 1, 6), EMPTY);
    assert_eq!(game.cell(BOARD_HEIGHT - 1, 0), GARBAGE_CELL);
    assert_eq!(game.cell(BOARD_HEIGHT - 2, 0), EMPTY);
    assert!(!game.update_garbage_animation(1080));
    assert!(!game.is_garbage_animating());
    assert_eq!(game.cell(BOARD_HEIGHT - 2, 6), EMPTY);
    assert_eq!(game.cell(BOARD_HEIGHT - 2, 1), GARBAGE_CELL);
}

#[test]
fn soft_drop_scores_one_point() {
    let mut game = make_game();
    game.current = Piece::new(0);
    assert!(game.soft_drop(0));
    assert_eq!(game.score, 1);
}

#[test]
fn move_piece_rejects_collisions() {
    let mut game = make_game();
    game.current = Piece::new(0);
    game.current.row = (BOARD_HEIGHT as i32) - 1;
    assert!(!game.move_piece(1, 0, 0));
    assert!(game.move_piece(0, 1, 0));
    assert_eq!(game.last_move, LastMove::Move);
}

#[test]
fn rotation_without_kicks_needs_clear_space() {
    let mut game = make_game();
    game.srs = false;
    game.current = Piece::new(KIND_T);
    game.rotate_cw(0);
    assert_eq!(game.current.rotation, 1);
    game.rotate_ccw(0);
    assert_eq!(game.current.rotation, 0);
}
