//! Framing, the handshake, and the versus-session rules.

use rustris::game::Game;
use rustris::garbage::{GarbageEvent, GarbageQueue};
use rustris::piece::{Piece, BOARD_HEIGHT, BOARD_WIDTH, EMPTY, GARBAGE_CELL};
use rustris::protocol::{BoardSnapshot, GarbageAttack, MatchOutcome, NetMessage, PROTOCOL_VERSION};
use rustris::session::{
    check_hello, expect_lobby_settings, expect_ready, handle_countdown_message,
    handle_match_message, hello_message, host_countdown_sequence, process_post_lock,
    resolve_match_outcome, CountdownStep, OpponentView, ProtoError, RematchState, ResultAction,
};
use rustris::settings::{Settings, VersusSettings};
use rustris::transport::{encode_frame, FrameBuffer, FrameError};
use rustris::types::GameMode;

fn test_settings() -> Settings {
    let mut s = Settings::default();
    s.line_clear_anim = false;
    s
}

#[test]
fn hello_version_mismatch_fails_on_both_sides() {
    // One peer offers version 1, the other expects version 2: each side
    // rejects the other's greeting with a version mismatch.
    let from_old_peer = NetMessage::Hello { version: 1 };
    let from_new_peer = NetMessage::Hello { version: 2 };
    assert_eq!(check_hello(&from_old_peer, 2), Err(ProtoError::VersionMismatch));
    assert_eq!(check_hello(&from_new_peer, 1), Err(ProtoError::VersionMismatch));
}

#[test]
fn hello_matching_version_passes() {
    let msg = hello_message();
    assert_eq!(check_hello(&msg, PROTOCOL_VERSION), Ok(()));
}

#[test]
fn hello_wrong_message_type_is_fatal() {
    assert_eq!(check_hello(&NetMessage::Ready, PROTOCOL_VERSION), Err(ProtoError::UnexpectedMessage));
}

#[test]
fn lobby_expects_settings_then_ready() {
    let vs = VersusSettings::default();
    let ok = expect_lobby_settings(NetMessage::LobbySettings(vs));
    assert!(ok.is_ok());
    assert_eq!(ok.unwrap().level, vs.level);
    assert_eq!(
        expect_lobby_settings(NetMessage::GameStart).err(),
        Some(ProtoError::UnexpectedMessage)
    );
    assert_eq!(expect_ready(&NetMessage::Ready), Ok(()));
    assert_eq!(expect_ready(&NetMessage::PlayerDead), Err(ProtoError::UnexpectedMessage));
}

#[test]
fn countdown_runs_three_two_one_start() {
    let seq = host_countdown_sequence();
    assert_eq!(seq.len(), 4);
    assert!(matches!(seq[0], NetMessage::Countdown(3)));
    assert!(matches!(seq[1], NetMessage::Countdown(2)));
    assert!(matches!(seq[2], NetMessage::Countdown(1)));
    assert!(matches!(seq[3], NetMessage::GameStart));
    assert_eq!(handle_countdown_message(&seq[0]), CountdownStep::Tick(3));
    assert_eq!(handle_countdown_message(&seq[3]), CountdownStep::Begin);
    assert_eq!(handle_countdown_message(&NetMessage::Disconnect), CountdownStep::Abort);
    assert_eq!(handle_countdown_message(&NetMessage::Ready), CountdownStep::Ignore);
}

#[test]
fn match_messages_update_queue_view_and_death() {
    let mut opponent = OpponentView::new();
    let mut queue = GarbageQueue::new();

    let dc = handle_match_message(
        &mut opponent,
        &mut queue,
        NetMessage::GarbageAttack(GarbageAttack { lines: 3, hole_column: 5 }),
    );
    assert!(!dc);
    assert_eq!(queue.total_pending(), 3);
    assert_eq!(queue.pending[0].hole_column, 5);

    let game = Game::new(GameMode::Versus, &test_settings(), 0);
    let snap = BoardSnapshot::from_game(&game, 3);
    let dc = handle_match_message(&mut opponent, &mut queue, NetMessage::BoardState(snap));
    assert!(!dc);
    assert!(opponent.snapshot.is_some());

    let dc = handle_match_message(&mut opponent, &mut queue, NetMessage::PlayerDead);
    assert!(!dc);
    assert!(opponent.dead);

    let dc = handle_match_message(&mut opponent, &mut queue, NetMessage::Disconnect);
    assert!(dc);
}

#[test]
fn post_lock_clearing_sends_uncancelled_remainder() {
    let mut game = Game::new(GameMode::Versus, &test_settings(), 0);
    for c in 0..BOARD_WIDTH {
        game.set_cell(BOARD_HEIGHT - 1, c, 1);
    }
    for c in 0..BOARD_WIDTH {
        game.set_cell(BOARD_HEIGHT - 2, c, 1);
    }
    for c in 0..BOARD_WIDTH {
        game.set_cell(BOARD_HEIGHT - 3, c, 1);
    }
    for c in 0..BOARD_WIDTH {
        game.set_cell(BOARD_HEIGHT - 4, c, 1);
    }
    game.current = Piece::new(0);
    game.current.row = (BOARD_HEIGHT as i32) - 5;
    game.lock_and_begin_clear(0);
    // A tetris sends four lines; one pending line absorbs part of it.
    let mut queue = GarbageQueue::new();
    queue.push(GarbageEvent { lines: 1, hole_column: 0 });
    let outgoing = process_post_lock(&mut game, &mut queue, 7);
    let attack = outgoing.expect("a remainder should be sent");
    assert_eq!(attack.lines, 3);
    assert_eq!(attack.hole_column, 7);
    assert_eq!(queue.total_pending(), 0);
}

#[test]
fn post_lock_without_clear_applies_pending_garbage() {
    let mut game = Game::new(GameMode::Versus, &test_settings(), 0);
    game.current = Piece::new(0);
    game.current.row = 0;
    game.lock_and_begin_clear(0);
    let mut queue = GarbageQueue::new();
    queue.push(GarbageEvent { lines: 2, hole_column: 4 });
    let outgoing = process_post_lock(&mut game, &mut queue, 0);
    assert!(outgoing.is_none());
    assert_eq!(queue.total_pending(), 0);
    assert_eq!(game.cell(BOARD_HEIGHT - 1, 4), EMPTY);
    assert_eq!(game.cell(BOARD_HEIGHT - 1, 0), GARBAGE_CELL);
    assert_eq!(game.cell(BOARD_HEIGHT - 2, 0), GARBAGE_CELL);
}

#[test]
fn outcome_resolution_and_host_tie_break() {
    assert_eq!(resolve_match_outcome(true, true, false), (false, Some(MatchOutcome::Lose)));
    assert_eq!(resolve_match_outcome(true, false, true), (true, Some(MatchOutcome::Win)));
    assert_eq!(resolve_match_outcome(true, true, true), (true, Some(MatchOutcome::Win)));
    assert_eq!(resolve_match_outcome(false, true, false), (false, None));
    assert_eq!(resolve_match_outcome(false, false, true), (true, None));
    assert_eq!(resolve_match_outcome(false, true, true), (false, None));
}

#[test]
fn rematch_needs_both_requests() {
    let mut ours = RematchState::new();
    let (starts, _sends_request_side) = ours.request_rematch();
    assert!(!starts);
    let (action, send_accept) = ours.handle_result_message(&NetMessage::RematchRequest);
    assert_eq!(action, Some(ResultAction::Rematch));
    assert!(send_accept);

    let mut theirs = RematchState::new();
    let (action, send_accept) = theirs.handle_result_message(&NetMessage::RematchRequest);
    assert_eq!(action, None);
    assert!(!send_accept);
    let (starts, sends) = theirs.request_rematch();
    assert!(starts);
    assert!(sends);

    let mut late = RematchState::new();
    let (action, _) = late.handle_result_message(&NetMessage::RematchAccept);
    assert_eq!(action, Some(ResultAction::Rematch));
    let (action, _) = late.handle_result_message(&NetMessage::Disconnect);
    assert_eq!(action, Some(ResultAction::Menu));
}

#[test]
fn frame_round_trip_through_the_buffer() {
    let payload: Vec<u8> = vec![9, 8, 7, 6, 5];
    let frame = encode_frame(&payload).unwrap();
    assert_eq!(frame.len(), 4 + payload.len());

    let mut buf = FrameBuffer::new();
    let (head, tail) = frame.split_at(3);
    buf.feed(&head.to_vec());
    assert_eq!(buf.try_frame(), Ok(None));
    buf.feed(&tail.to_vec());
    assert_eq!(buf.try_frame(), Ok(Some(payload)));
    assert_eq!(buf.try_frame(), Ok(None));
    assert!(buf.buf.is_empty());
}

#[test]
fn two_frames_pop_in_order() {
    let mut buf = FrameBuffer::new();
    let mut bytes = encode_frame(&vec![1, 2]).unwrap();
    bytes.extend_from_slice(&encode_frame(&vec![3]).unwrap());
    buf.feed(&bytes);
    assert_eq!(buf.try_frame(), Ok(Some(vec![1, 2])));
    assert_eq!(buf.try_frame(), Ok(Some(vec![3])));
    assert_eq!(buf.try_frame(), Ok(None));
}

#[test]
fn oversized_frames_are_fatal() {
    let big = vec![0u8; 65537];
    assert_eq!(encode_frame(&big), Err(FrameError::Oversized));

    let mut buf = FrameBuffer::new();
    // An announced length of 0x00010001 bytes is over the ceiling.
    buf.feed(&vec![0, 1, 0, 1]);
    assert_eq!(buf.try_frame(), Err(FrameError::Oversized));
}

#[test]
fn snapshot_projects_the_visible_board() {
    let mut game = Game::new(GameMode::Versus, &test_settings(), 0);
    game.set_cell(BOARD_HEIGHT - 1, 0, 3);
    let snap = BoardSnapshot::from_game(&game, 5);
    assert_eq!(snap.board.len(), 200);
    assert_eq!(snap.board[199 - 9], 3);
    assert_eq!(snap.current_cells.len(), 4);
    assert_eq!(snap.current_kind, game.current.kind);
    assert_eq!(snap.pending_garbage, 5);

    game.are_timer = Some(0);
    let idle = BoardSnapshot::from_game(&game, 0);
    assert!(idle.current_cells.is_empty());
}
