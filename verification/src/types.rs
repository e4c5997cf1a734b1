//! Shared types of the lock/clear/scoring engine.

use vstd::prelude::*;
use crate::piece::BOARD_HEIGHT;

verus! {

/// Play mode of one session.
#[derive(Clone, Copy, PartialEq, Eq, Structural, Debug)]
pub enum GameMode {
    Marathon,
    Sprint,
    Ultra,
    Endless,
    Versus,
}

/// Duration of the three-phase line-clear flash, in milliseconds.
pub const LINE_CLEAR_ANIM_MS: u64 = 300;
/// Post-lock grace period before the next piece spawns, in milliseconds.
pub const ARE_DELAY_MS: u64 = 100;

/// The running line-clear flash: which rows are clearing, when the flash
/// started, and which of its three phases is showing.
pub struct LineClearAnimation {
    pub rows: Vec<usize>,
    pub started_at: u64,
    pub phase: u8,
}

impl LineClearAnimation {
    pub open spec fn wf(self) -> bool {
        forall |i: int| 0 <= i < self.rows@.len() ==> #[trigger] self.rows@[i] < BOARD_HEIGHT
    }

    pub fn new(rows: Vec<usize>, now_ms: u64) -> (a: LineClearAnimation)
        ensures
            a.rows@ == rows@,
            a.started_at == now_ms,
            a.phase == 0,
    {
        LineClearAnimation { rows, started_at: now_ms, phase: 0 }
    }
}

/// The most recent successful action on the active piece; rotation as the
/// last action is what arms spin detection.
#[derive(Clone, Copy, PartialEq, Eq, Structural, Debug)]
pub enum LastMove {
    Nothing,
    Rotate,
    Move,
}

/// What one lock event cleared and scored.  Immutable once produced;
/// consumed by scoring displays and by the garbage economy.
#[derive(Clone)]
pub struct ClearAction {
    pub label: String,
    pub points: u32,
    pub cleared_lines: u32,
    pub is_tspin: bool,
    pub is_mini: bool,
    pub is_back_to_back: bool,
    pub combo: i32,
    pub is_all_clear: bool,
}

/// A garbage rise in progress: the queued events being applied a few rows at
/// a time, for visual pacing.
pub struct GarbageRiseAnimation {
    pub events: Vec<(u32, usize)>,
    pub started_at: u64,
    pub lines_applied: u32,
}

} // verus!
