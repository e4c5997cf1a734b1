//! Records, settings adjustment, input state and sound-event mapping.

use rustris::events::{clear_sfx_events, Sfx};
use rustris::game::Game;
use rustris::input::{
    compute_timeout, handle_game_key, menu_nav, update_game_timers, DasState, GameInput,
    InputState,
};
use rustris::piece::{Piece, BOARD_HEIGHT, BOARD_WIDTH};
use rustris::records::{Records, ScoreRecord};
use rustris::settings::{adjust_level_cap, adjust_setting, mode_setting_rows, Settings, VersusSettings};
use rustris::types::{GameMode, LastMove};

fn test_settings() -> Settings {
    let mut s = Settings::default();
    s.line_clear_anim = false;
    s
}

fn record(score: u32, time: Option<u64>) -> ScoreRecord {
    ScoreRecord {
        score,
        lines: 10,
        level: 2,
        time,
        date: String::new(),
    }
}

#[test]
fn records_rank_by_score_and_keep_ten() {
    let mut records = Records::default();
    assert_eq!(records.add(GameMode::Marathon, record(100, None)), Some(0));
    assert_eq!(records.add(GameMode::Marathon, record(300, None)), Some(0));
    assert_eq!(records.add(GameMode::Marathon, record(200, None)), Some(1));
    assert_eq!(records.marathon.len(), 3);
    assert_eq!(records.marathon[0].score, 300);
    assert_eq!(records.marathon[1].score, 200);
    assert_eq!(records.marathon[2].score, 100);

    for _ in 0..7 {
        records.add(GameMode::Marathon, record(500, None));
    }
    assert_eq!(records.marathon.len(), 10);
    // An eleventh attempt below the table is dropped.
    assert_eq!(records.add(GameMode::Marathon, record(50, None)), None);
    assert_eq!(records.marathon.len(), 10);
}

#[test]
fn sprint_records_rank_by_time() {
    let mut records = Records::default();
    assert_eq!(records.add(GameMode::Sprint, record(0, Some(90_000))), Some(0));
    assert_eq!(records.add(GameMode::Sprint, record(0, Some(60_000))), Some(0));
    assert_eq!(records.add(GameMode::Sprint, record(0, Some(75_000))), Some(1));
    assert_eq!(records.add(GameMode::Sprint, record(0, None)), None);
    assert_eq!(records.sprint.len(), 3);
    assert_eq!(records.sprint[0].time, Some(60_000));
}

#[test]
fn versus_keeps_no_records() {
    let mut records = Records::default();
    assert_eq!(records.add(GameMode::Versus, record(999, None)), None);
    assert!(records.marathon.is_empty());
}

#[test]
fn level_setting_clamps_to_its_range() {
    let mut s = test_settings();
    for _ in 0..30 {
        adjust_setting(&mut s, 0, 1, GameMode::Marathon);
    }
    assert_eq!(s.level, 20);
    for _ in 0..30 {
        adjust_setting(&mut s, 0, -1, GameMode::Marathon);
    }
    assert_eq!(s.level, 1);
}

#[test]
fn level_cap_climbs_off_the_top_and_returns() {
    let mut s = test_settings();
    s.level_cap = Some(19);
    adjust_level_cap(&mut s, 1);
    assert_eq!(s.level_cap, Some(20));
    adjust_level_cap(&mut s, 1);
    assert_eq!(s.level_cap, None);
    adjust_level_cap(&mut s, -1);
    assert_eq!(s.level_cap, Some(20));
}

#[test]
fn toggle_rows_flip_their_settings() {
    let mut s = test_settings();
    let mc = mode_setting_rows(GameMode::Versus);
    let srs_before = s.srs;
    adjust_setting(&mut s, mc + 6, 1, GameMode::Versus);
    assert_eq!(s.srs, !srs_before);
    let hold_before = s.hold_enabled;
    adjust_setting(&mut s, mc + 7, 1, GameMode::Versus);
    assert_eq!(s.hold_enabled, !hold_before);
}

#[test]
fn versus_settings_round_trip_through_full_settings() {
    let vs = VersusSettings::default();
    let s = vs.to_settings();
    assert_eq!(s.level_cap, Some(vs.level));
    let back = VersusSettings::from_settings(&s);
    assert_eq!(back.level, vs.level);
    assert_eq!(back.lock_delay_ms, vs.lock_delay_ms);
}

#[test]
fn menu_nav_wraps_both_ways() {
    assert_eq!(menu_nav(0, 3, true), 2);
    assert_eq!(menu_nav(2, 3, false), 0);
    assert_eq!(menu_nav(1, 3, false), 2);
}

#[test]
fn das_state_tracks_and_resets_timers() {
    let mut d = DasState::new(1, 500);
    assert_eq!(d.direction, 1);
    assert!(!d.charged);
    d.charged = true;
    d.reset_timers(900);
    assert_eq!(d.start, 900);
    assert_eq!(d.last_event, 900);
    assert!(d.charged);

    let mut st = InputState::new(100);
    st.ihs = true;
    st.reset(300);
    assert!(!st.ihs);
    assert_eq!(st.last_tick, 300);
}

#[test]
fn lateral_key_moves_and_arms_auto_repeat() {
    let mut game = Game::new(GameMode::Versus, &test_settings(), 0);
    let mut st = InputState::new(0);
    let col = game.current.col;
    let dropped = handle_game_key(GameInput::MoveRight, &mut game, &mut st, 10);
    assert!(!dropped);
    assert_eq!(game.current.col, col + 1);
    let das = st.das.as_ref().unwrap();
    assert_eq!(das.direction, 1);
    assert_eq!(das.start, 10);
}

#[test]
fn rotation_during_grace_period_is_buffered() {
    let mut game = Game::new(GameMode::Versus, &test_settings(), 0);
    game.are_timer = Some(0);
    let mut st = InputState::new(0);
    handle_game_key(GameInput::RotateCw, &mut game, &mut st, 10);
    assert_eq!(st.irs, Some(1));
    assert_eq!(game.current.rotation, 0);
    handle_game_key(GameInput::Hold, &mut game, &mut st, 12);
    assert!(st.ihs);
}

#[test]
fn hard_drop_key_reports_a_lock() {
    let mut game = Game::new(GameMode::Versus, &test_settings(), 0);
    let mut st = InputState::new(0);
    let dropped = handle_game_key(GameInput::HardDrop, &mut game, &mut st, 10);
    assert!(dropped);
    assert!(game.in_are());
    assert_eq!(st.last_tick, 10);
}

#[test]
fn expired_lock_delay_commits_the_piece() {
    let mut game = Game::new(GameMode::Versus, &test_settings(), 0);
    game.current = Piece::new(0);
    game.current.row = (BOARD_HEIGHT as i32) - 1;
    game.lock_delay = Some(1000);
    let mut st = InputState::new(1000);
    let locked = update_game_timers(&mut game, &mut st, 1500);
    assert!(locked);
    assert!(game.in_are());
    assert_eq!(game.cell(BOARD_HEIGHT - 1, game.current.col as usize), 1);
}

#[test]
fn running_lock_delay_shortens_the_timeout() {
    let mut game = Game::new(GameMode::Versus, &test_settings(), 0);
    game.lock_delay = Some(1000);
    let st = InputState::new(1000);
    // 500 ms of lock delay remain against a 1000 ms gravity interval.
    let t = compute_timeout(&game, &st, 1000);
    assert_eq!(t, 500);
    let t = compute_timeout(&game, &st, 1400);
    assert_eq!(t, 100);
}

#[test]
fn lock_cues_follow_the_clear_result() {
    let mut game = Game::new(GameMode::Versus, &test_settings(), 0);
    for c in 0..BOARD_WIDTH {
        game.set_cell(BOARD_HEIGHT - 1, c, 1);
    }
    game.current = Piece::new(0);
    game.current.row = (BOARD_HEIGHT as i32) - 2;
    game.current.col = 0;
    let prev_level = game.level;
    game.lock_and_begin_clear(0);
    let cues = clear_sfx_events(&game, prev_level, 0);
    assert_eq!(cues, vec![Sfx::Lock]);

    let mut anim_game = Game::new(GameMode::Versus, &Settings::default(), 0);
    for c in 0..BOARD_WIDTH {
        anim_game.set_cell(BOARD_HEIGHT - 1, c, 1);
    }
    anim_game.current = Piece::new(0);
    anim_game.current.row = (BOARD_HEIGHT as i32) - 2;
    anim_game.current.col = 0;
    anim_game.lock_and_begin_clear(0);
    let cues = clear_sfx_events(&anim_game, prev_level, 0);
    assert_eq!(cues, vec![Sfx::Lock, Sfx::LineClear(1)]);
}

#[test]
fn spin_lock_cue_fires_only_right_after_the_lock() {
    let mut game = Game::new(GameMode::Versus, &test_settings(), 0);
    let t_row = (BOARD_HEIGHT as i32) - 1;
    game.current = Piece::new(rustris::piece::KIND_T);
    game.current.row = t_row;
    game.current.col = 4;
    game.last_move = LastMove::Rotate;
    game.set_cell((t_row - 1) as usize, 3, 1);
    game.lock_and_begin_clear(2000);
    let cues = clear_sfx_events(&game, game.level, 2050);
    assert_eq!(cues, vec![Sfx::Lock, Sfx::TSpinMini]);
    let late = clear_sfx_events(&game, game.level, 2200);
    assert_eq!(late, vec![Sfx::Lock]);
}
