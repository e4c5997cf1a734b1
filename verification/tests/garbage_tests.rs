//! The garbage economy: queue cancellation and attack values.

use rustris::garbage::{calculate_attack, GarbageEvent, GarbageQueue};
use rustris::types::ClearAction;

fn make_action(
    cleared_lines: u32,
    is_tspin: bool,
    is_mini: bool,
    is_back_to_back: bool,
    combo: i32,
    is_all_clear: bool,
) -> ClearAction {
    ClearAction {
        label: String::new(),
        points: 0,
        cleared_lines,
        is_tspin,
        is_mini,
        is_back_to_back,
        combo,
        is_all_clear,
    }
}

#[test]
fn garbage_cancel_exact_match() {
    let mut q = GarbageQueue::new();
    q.push(GarbageEvent { lines: 3, hole_column: 0 });
    let remaining = q.cancel(3);
    assert_eq!(remaining, 0);
    assert!(q.pending.is_empty());
}

#[test]
fn garbage_cancel_partial() {
    let mut q = GarbageQueue::new();
    q.push(GarbageEvent { lines: 5, hole_column: 0 });
    let remaining = q.cancel(3);
    assert_eq!(remaining, 0);
    assert_eq!(q.pending.len(), 1);
    assert_eq!(q.pending[0].lines, 2);
}

#[test]
fn garbage_cancel_overflow() {
    let mut q = GarbageQueue::new();
    q.push(GarbageEvent { lines: 2, hole_column: 0 });
    let remaining = q.cancel(5);
    assert_eq!(remaining, 3);
    assert!(q.pending.is_empty());
}

#[test]
fn garbage_cancel_multi_event() {
    let mut q = GarbageQueue::new();
    q.push(GarbageEvent { lines: 2, hole_column: 0 });
    q.push(GarbageEvent { lines: 3, hole_column: 1 });
    let remaining = q.cancel(4);
    assert_eq!(remaining, 0);
    assert_eq!(q.pending.len(), 1);
    assert_eq!(q.pending[0].lines, 1);
    assert_eq!(q.pending[0].hole_column, 1);
}

#[test]
fn garbage_cancel_zero_attack() {
    let mut q = GarbageQueue::new();
    q.push(GarbageEvent { lines: 3, hole_column: 0 });
    let remaining = q.cancel(0);
    assert_eq!(remaining, 0);
    assert_eq!(q.total_pending(), 3);
}

#[test]
fn garbage_attack_single() {
    let a = make_action(1, false, false, false, 0, false);
    assert_eq!(calculate_attack(&a), 0);
}

#[test]
fn garbage_attack_double() {
    let a = make_action(2, false, false, false, 0, false);
    assert_eq!(calculate_attack(&a), 1);
}

#[test]
fn garbage_attack_triple() {
    let a = make_action(3, false, false, false, 0, false);
    assert_eq!(calculate_attack(&a), 2);
}

#[test]
fn garbage_attack_tetris() {
    let a = make_action(4, false, false, false, 0, false);
    assert_eq!(calculate_attack(&a), 4);
}

#[test]
fn garbage_attack_tspin_single() {
    let a = make_action(1, true, false, false, 0, false);
    assert_eq!(calculate_attack(&a), 2);
}

#[test]
fn garbage_attack_tspin_double() {
    let a = make_action(2, true, false, false, 0, false);
    assert_eq!(calculate_attack(&a), 4);
}

#[test]
fn garbage_attack_tspin_triple() {
    let a = make_action(3, true, false, false, 0, false);
    assert_eq!(calculate_attack(&a), 6);
}

#[test]
fn garbage_attack_mini_tspin_single() {
    let a = make_action(1, true, true, false, 0, false);
    assert_eq!(calculate_attack(&a), 0);
}

#[test]
fn garbage_attack_mini_tspin_double() {
    let a = make_action(2, true, true, false, 0, false);
    assert_eq!(calculate_attack(&a), 1);
}

#[test]
fn garbage_attack_b2b_bonus() {
    let a = make_action(4, false, false, true, 0, false);
    assert_eq!(calculate_attack(&a), 5);
}

#[test]
fn garbage_attack_combo_bonus() {
    let a = make_action(2, false, false, false, 2, false);
    assert_eq!(calculate_attack(&a), 2);
}

#[test]
fn garbage_attack_all_clear() {
    let a = make_action(1, false, false, false, 0, true);
    assert_eq!(calculate_attack(&a), 10);
}

#[test]
fn garbage_attack_zero_lines() {
    let a = make_action(0, false, false, false, 0, false);
    assert_eq!(calculate_attack(&a), 0);
}

#[test]
fn garbage_total_pending_sums_events() {
    let mut q = GarbageQueue::new();
    assert_eq!(q.total_pending(), 0);
    q.push(GarbageEvent { lines: 2, hole_column: 4 });
    q.push(GarbageEvent { lines: 7, hole_column: 1 });
    assert_eq!(q.total_pending(), 9);
}

#[test]
fn garbage_drain_all_empties_in_order() {
    let mut q = GarbageQueue::new();
    q.push(GarbageEvent { lines: 2, hole_column: 4 });
    q.push(GarbageEvent { lines: 1, hole_column: 9 });
    let events = q.drain_all();
    assert_eq!(q.total_pending(), 0);
    assert_eq!(events.len(), 2);
    assert_eq!(events[0].lines, 2);
    assert_eq!(events[0].hole_column, 4);
    assert_eq!(events[1].lines, 1);
    assert_eq!(events[1].hole_column, 9);
}

#[test]
fn garbage_attack_high_combo_caps_at_five() {
    let a = make_action(1, false, false, false, 11, false);
    assert_eq!(calculate_attack(&a), 5);
}
