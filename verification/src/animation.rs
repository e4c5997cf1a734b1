//! The clear-flash animation, the post-lock grace period, and the paced
//! garbage rise.

use vstd::prelude::*;
use crate::game::{board_cell, kept_rows_upto, Game};
use crate::garbage::GarbageEvent;
use crate::piece::{BOARD_CELLS, BOARD_HEIGHT, BOARD_WIDTH, EMPTY, GARBAGE_CELL, KIND_COUNT};
use crate::types::{GarbageRiseAnimation, LastMove, ARE_DELAY_MS, LINE_CLEAR_ANIM_MS};

verus! {

/// Milliseconds between garbage rows while a rise animation is pacing them
/// in.
pub const GARBAGE_RISE_INTERVAL_MS: u64 = 40;

/// Elapsed milliseconds, zero when the clock reads earlier than the start.
pub open spec fn spec_elapsed(now_ms: u64, start_ms: u64) -> int {
    if now_ms >= start_ms { now_ms - start_ms } else { 0 }
}

/// The total line count of a rise animation's events.
pub open spec fn spec_rise_total(events: Seq<(u32, usize)>) -> int
    decreases events.len(),
{
    if events.len() == 0 {
        0
    } else {
        events[0].0 + spec_rise_total(events.drop_first())
    }
}

pub proof fn lemma_rise_total_nonneg(events: Seq<(u32, usize)>)
    ensures
        spec_rise_total(events) >= 0,
    decreases events.len(),
{
    if events.len() > 0 {
        lemma_rise_total_nonneg(events.drop_first());
    }
}

/// The hole column of the event that owns overall garbage line `idx`.
pub open spec fn spec_hole_for_line(events: Seq<(u32, usize)>, idx: int) -> int
    decreases events.len(),
{
    if events.len() == 0 {
        0
    } else if idx < events[0].0 {
        events[0].1 as int
    } else {
        spec_hole_for_line(events.drop_first(), idx - events[0].0)
    }
}

impl Game {
    /// What the end of the grace period does: with the goal already met the
    /// session ends; otherwise the next piece spawns by the spawn step.
    pub open spec fn spec_are_spawn(pre: Game, post: Game) -> bool {
        if pre.cleared {
            post == (Game { are_timer: None, game_over: true, ..pre })
        } else {
            Game::spec_spawn_step(Game { are_timer: None, ..pre }, post)
        }
    }

    /// End the clear flash: remove its rows and start the grace period.
    pub fn finish_clear(&mut self, now_ms: u64)
        requires
            old(self).wf(),
        ensures
            final(self).wf(),
            final(self).line_clear_anim.is_none(),
            final(self).are_timer == Some(now_ms),
            *final(self) == (Game {
                board: final(self).board,
                line_clear_anim: None,
                are_timer: Some(now_ms),
                ..*old(self)
            }),
            match old(self).line_clear_anim {
                Some(anim) => ({
                    let kept = kept_rows_upto(anim.rows@, BOARD_HEIGHT as int);
                    let k = kept.len() as int;
                    &&& forall |j: int, c: int| 0 <= j < k && 0 <= c < BOARD_WIDTH
                        ==> #[trigger] board_cell(final(self).board@, BOARD_HEIGHT - k + j, c)
                            == board_cell(old(self).board@, kept[j] as int, c)
                    &&& forall |r: int, c: int| 0 <= r < BOARD_HEIGHT - k && 0 <= c < BOARD_WIDTH
                        ==> board_cell(final(self).board@, r, c) == EMPTY
                }),
                None => final(self).board == old(self).board,
            },
    {
        let mut taken: Option<crate::types::LineClearAnimation> = None;
        core::mem::swap(&mut taken, &mut self.line_clear_anim);
        match taken {
            Some(anim) => {
                let ghost before = *self;
                self.remove_rows(&anim.rows);
                let ghost after = *self;
                proof {
                    let kept = kept_rows_upto(anim.rows@, BOARD_HEIGHT as int);
                    let k = kept.len() as int;
                    assert forall |j: int, c: int| 0 <= j < k && 0 <= c < BOARD_WIDTH
                        implies #[trigger] board_cell(self.board@, BOARD_HEIGHT - k + j, c)
                            == board_cell(old(self).board@, kept[j] as int, c) by {
                        assert(after.spec_cell(BOARD_HEIGHT - k + j, c)
                            == before.spec_cell(kept[j] as int, c));
                    }
                    assert forall |r: int, c: int| 0 <= r < BOARD_HEIGHT - k && 0 <= c < BOARD_WIDTH
                        implies board_cell(self.board@, r, c) == EMPTY by {
                        assert(after.spec_cell(r, c) == EMPTY);
                    }
                }
            }
            None => {}
        }
        self.are_timer = Some(now_ms);
    }

    /// Advance the clear flash through its three equal phases; expired
    /// animations report false and are left for `finish_clear`.
    pub fn update_animation(&mut self, now_ms: u64) -> (b: bool)
        ensures
            match old(self).line_clear_anim {
                Some(anim) => ({
                    let elapsed = spec_elapsed(now_ms, anim.started_at);
                    let phase_len = LINE_CLEAR_ANIM_MS / 3;
                    if elapsed >= LINE_CLEAR_ANIM_MS {
                        !b && *final(self) == *old(self)
                    } else {
                        let phase: u8 = if elapsed < phase_len { 0 }
                            else if elapsed < phase_len * 2 { 1 }
                            else { 2 };
                        &&& b
                        &&& match final(self).line_clear_anim {
                                Some(a2) => a2.rows == anim.rows
                                    && a2.started_at == anim.started_at
                                    && a2.phase == phase,
                                None => false,
                            }
                        &&& *final(self) == (Game {
                                line_clear_anim: final(self).line_clear_anim,
                                ..*old(self)
                            })
                    }
                }),
                None => !b && *final(self) == *old(self),
            },
    {
        match &mut self.line_clear_anim {
            Some(anim) => {
                let elapsed = if now_ms >= anim.started_at { now_ms - anim.started_at } else { 0 };
                let phase_len = LINE_CLEAR_ANIM_MS / 3;
                if elapsed >= LINE_CLEAR_ANIM_MS {
                    return false;
                }
                let phase: u8 = if elapsed < phase_len {
                    0
                } else if elapsed < phase_len * 2 {
                    1
                } else {
                    2
                };
                anim.phase = phase;
                true
            }
            None => false,
        }
    }

    /// Whether the clear flash is running.
    pub fn is_animating(&self) -> (b: bool)
        ensures
            b == self.line_clear_anim.is_some(),
    {
        self.line_clear_anim.is_some()
    }

    /// Whether the post-lock grace period is running.
    pub fn in_are(&self) -> (b: bool)
        ensures
            b == self.are_timer.is_some(),
    {
        self.are_timer.is_some()
    }

    /// When the grace period has expired, spawn the next piece — or end
    /// the session if the goal was already met.  Reports whether the
    /// grace period ended.
    pub fn check_are(&mut self, now_ms: u64) -> (b: bool)
        requires
            old(self).wf(),
        ensures
            final(self).wf(),
            match old(self).are_timer {
                Some(start) => {
                    if spec_elapsed(now_ms, start) >= ARE_DELAY_MS {
                        &&& b
                        &&& final(self).are_timer.is_none()
                        &&& Game::spec_are_spawn(*old(self), *final(self))
                    } else {
                        !b && *final(self) == *old(self)
                    }
                },
                None => !b && *final(self) == *old(self),
            },
    {
        match self.are_timer {
            Some(start) => {
                let elapsed = if now_ms >= start { now_ms - start } else { 0 };
                if elapsed >= ARE_DELAY_MS {
                    self.are_timer = None;
                    if self.cleared {
                        self.game_over = true;
                        return true;
                    }
                    self.spawn_next();
                    return true;
                }
                false
            }
            None => false,
        }
    }

    /// Queue drained garbage events for paced application instead of
    /// applying them at once.
    pub fn begin_garbage_rise(&mut self, events: Vec<GarbageEvent>, now_ms: u64)
        ensures
            old(self).wf() ==> final(self).wf(),
            events@.len() == 0 ==> *final(self) == *old(self),
            events@.len() > 0 ==> ({
                &&& match final(self).garbage_rise_anim {
                        Some(anim) => {
                            &&& anim.events@.len() == events@.len()
                            &&& forall |i: int| 0 <= i < events@.len()
                                ==> #[trigger] anim.events@[i]
                                    == (events@[i].lines, events@[i].hole_column)
                            &&& anim.started_at == now_ms
                            &&& anim.lines_applied == 0
                        },
                        None => false,
                    }
                &&& *final(self) == (Game {
                        garbage_rise_anim: final(self).garbage_rise_anim,
                        ..*old(self)
                    })
            }),
    {
        if events.len() == 0 {
            return;
        }
        let mut anim_events: Vec<(u32, usize)> = Vec::new();
        let mut i: usize = 0;
        while i < events.len()
            invariant
                i <= events@.len(),
                anim_events@.len() == i,
                forall |j: int| 0 <= j < i
                    ==> #[trigger] anim_events@[j] == (events@[j].lines, events@[j].hole_column),
            decreases events@.len() - i,
        {
            let e = events[i];
            anim_events.push((e.lines, e.hole_column));
            i += 1;
        }
        self.garbage_rise_anim = Some(GarbageRiseAnimation {
            events: anim_events,
            started_at: now_ms,
            lines_applied: 0,
        });
    }

    /// Whether a garbage rise is being paced in.
    pub fn is_garbage_animating(&self) -> (b: bool)
        ensures
            b == self.garbage_rise_anim.is_some(),
    {
        self.garbage_rise_anim.is_some()
    }

    /// The hole column owning overall garbage line `idx` of the rise.
    pub(crate) fn hole_for_line(events: &Vec<(u32, usize)>, idx: u64) -> (hole: usize)
        ensures
            hole == spec_hole_for_line(events@, idx as int),
    {
        let mut i: usize = 0;
        let mut remaining = idx;
        proof {
            assert(events@.skip(0) =~= events@);
        }
        while i < events.len()
            invariant
                i <= events@.len(),
                remaining <= idx,
                spec_hole_for_line(events@.skip(i as int), remaining as int)
                    == spec_hole_for_line(events@, idx as int),
            decreases events@.len() - i,
        {
            proof {
                assert(events@.skip(i as int)[0] == events@[i as int]);
                assert(events@.skip(i as int).drop_first() =~= events@.skip(i as int + 1));
            }
            let lines = events[i].0 as u64;
            if remaining < lines {
                return events[i].1;
            }
            remaining = remaining - lines;
            i += 1;
        }
        proof {
            assert(events@.skip(events@.len() as int) =~= Seq::<(u32, usize)>::empty());
        }
        0
    }

    /// The hole column owning overall garbage line `idx`, for wide line
    /// indices.
    pub(crate) fn hole_for_line_wide(events: &Vec<(u32, usize)>, idx: u128) -> (hole: usize)
        ensures
            hole == spec_hole_for_line(events@, idx as int),
    {
        let mut i: usize = 0;
        let mut remaining = idx;
        proof {
            assert(events@.skip(0) =~= events@);
        }
        while i < events.len()
            invariant
                i <= events@.len(),
                spec_hole_for_line(events@.skip(i as int), remaining as int)
                    == spec_hole_for_line(events@, idx as int),
            decreases events@.len() - i,
        {
            proof {
                assert(events@.skip(i as int)[0] == events@[i as int]);
                assert(events@.skip(i as int).drop_first() =~= events@.skip(i as int + 1));
            }
            let lines = events[i].0 as u128;
            if remaining < lines {
                return events[i].1;
            }
            remaining = remaining - lines;
            i += 1;
        }
        proof {
            assert(events@.skip(events@.len() as int) =~= Seq::<(u32, usize)>::empty());
        }
        0
    }

    /// Advance the garbage rise: apply the rows the elapsed time grants,
    /// one at a time with each event's own hole column, and drop the
    /// animation once everything is in.  Reports whether it is still
    /// running.
    #[verifier::spinoff_prover]
    #[verifier::rlimit(100)]
    pub fn update_garbage_animation(&mut self, now_ms: u64) -> (b: bool)
        requires
            old(self).wf(),
        ensures
            final(self).wf(),
            *final(self) == (Game {
                board: final(self).board,
                garbage_rise_anim: final(self).garbage_rise_anim,
                ..*old(self)
            }),
            match old(self).garbage_rise_anim {
                Some(anim) => ({
                    let total = spec_rise_total(anim.events@);
                    let target = spec_elapsed(now_ms, anim.started_at) / (GARBAGE_RISE_INTERVAL_MS as int);
                    let goal = if target > total { total } else { target };
                    let already = anim.lines_applied as int;
                    if goal <= already {
                        &&& b == (goal < total)
                        &&& *final(self) == *old(self)
                    } else {
                        let d = goal - already;
                        let dd = if d > BOARD_HEIGHT { BOARD_HEIGHT as int } else { d };
                        &&& forall |r: int, c: int| 0 <= r < BOARD_HEIGHT - d && 0 <= c < BOARD_WIDTH
                            ==> #[trigger] board_cell(final(self).board@, r, c)
                                == board_cell(old(self).board@, r + d, c)
                        &&& forall |r: int, c: int|
                            BOARD_HEIGHT - dd <= r < BOARD_HEIGHT && 0 <= c < BOARD_WIDTH
                            ==> #[trigger] board_cell(final(self).board@, r, c)
                                == (if c == spec_hole_for_line(anim.events@, goal - BOARD_HEIGHT + r) {
                                    EMPTY
                                } else {
                                    GARBAGE_CELL
                                })
                        &&& if goal >= total {
                                final(self).garbage_rise_anim.is_none() && !b
                            } else {
                                b && match final(self).garbage_rise_anim {
                                    Some(a2) => a2.events@ == anim.events@
                                        && a2.started_at == anim.started_at
                                        && a2.lines_applied
                                            == (if goal > u32::MAX { u32::MAX as int } else { goal })
                                    ,
                                    None => false,
                                }
                            }
                    }
                }),
                None => !b && *final(self) == *old(self),
            },
    {
        let mut taken: Option<GarbageRiseAnimation> = None;
        core::mem::swap(&mut taken, &mut self.garbage_rise_anim);
        let anim = match taken {
            Some(a) => a,
            None => {
                return false;
            }
        };
        let events = anim.events;
        let started_at = anim.started_at;
        let already = anim.lines_applied;
        proof {
            lemma_rise_total_nonneg(events@);
        }

        let elapsed = if now_ms >= started_at { now_ms - started_at } else { 0 };
        let target: u64 = elapsed / GARBAGE_RISE_INTERVAL_MS;

        let total: u128 = Self::rise_total(&events);
        let goal: u64 = if (target as u128) > total { total as u64 } else { target };
        proof {
            assert(goal as int == (if target as int > spec_rise_total(events@) {
                spec_rise_total(events@)
            } else {
                target as int
            }));
        }

        if goal <= already as u64 {
            self.garbage_rise_anim = Some(GarbageRiseAnimation {
                events,
                started_at,
                lines_applied: already,
            });
            return (goal as u128) < total;
        }

        let ghost start_state = *self;
        let mut j: u64 = already as u64;
        while j < goal
            invariant
                self.wf(),
                start_state.wf(),
                already as u64 <= j <= goal,
                goal as int <= spec_rise_total(events@),
                *self == (Game { board: self.board, ..start_state }),
                forall |r: int, c: int| 0 <= r < BOARD_HEIGHT - (j - already) && 0 <= c < BOARD_WIDTH
                    ==> #[trigger] board_cell(self.board@, r, c)
                        == board_cell(start_state.board@, r + (j - already), c),
                forall |r: int, c: int|
                    BOARD_HEIGHT - (if j - already > BOARD_HEIGHT { BOARD_HEIGHT as int } else { j - already }) <= r < BOARD_HEIGHT
                    && 0 <= c < BOARD_WIDTH
                    ==> #[trigger] board_cell(self.board@, r, c)
                        == (if c == spec_hole_for_line(events@, j - BOARD_HEIGHT + r) { EMPTY } else { GARBAGE_CELL }),
            decreases goal - j,
        {
            let hole = Self::hole_for_line(&events, j);
            let ghost before_row = *self;
            self.receive_garbage(1, hole);
            proof {
                assert forall |r: int, c: int|
                    0 <= r < BOARD_HEIGHT - (j + 1 - already) && 0 <= c < BOARD_WIDTH
                    implies #[trigger] board_cell(self.board@, r, c)
                        == board_cell(start_state.board@, r + (j + 1 - already), c) by {
                    assert(self.spec_cell(r, c) == before_row.spec_cell(r + 1, c));
                }
                assert forall |r: int, c: int|
                    BOARD_HEIGHT - (if j + 1 - already > BOARD_HEIGHT { BOARD_HEIGHT as int } else { j + 1 - already }) <= r < BOARD_HEIGHT
                    && 0 <= c < BOARD_WIDTH
                    implies #[trigger] board_cell(self.board@, r, c)
                        == (if c == spec_hole_for_line(events@, j + 1 - BOARD_HEIGHT + r) { EMPTY } else { GARBAGE_CELL }) by {
                    if r == BOARD_HEIGHT - 1 {
                        assert(self.spec_cell(BOARD_HEIGHT - 1, c)
                            == (if c == hole { EMPTY } else { GARBAGE_CELL }));
                    } else {
                        assert(self.spec_cell(r, c) == before_row.spec_cell(r + 1, c));
                        assert(board_cell(before_row.board@, r + 1, c)
                            == (if c == spec_hole_for_line(events@, j - BOARD_HEIGHT + (r + 1)) { EMPTY } else { GARBAGE_CELL }));
                    }
                }
            }
            j += 1;
        }

        if (goal as u128) >= total {
            return false;
        }

        let stored: u32 = if goal > u32::MAX as u64 { u32::MAX } else { goal as u32 };
        self.garbage_rise_anim = Some(GarbageRiseAnimation {
            events,
            started_at,
            lines_applied: stored,
        });
        true
    }

    /// The total line count of a rise animation's events.
    pub(crate) fn rise_total(events: &Vec<(u32, usize)>) -> (t: u128)
        ensures
            t == spec_rise_total(events@),
    {
        let mut t: u128 = 0;
        let mut i: usize = 0;
        proof {
            assert(events@.skip(0) =~= events@);
            lemma_rise_total_nonneg(events@);
        }
        while i < events.len()
            invariant
                i <= events@.len(),
                t <= (i as int) * (u32::MAX as int),
                spec_rise_total(events@) == t + spec_rise_total(events@.skip(i as int)),
            decreases events@.len() - i,
        {
            proof {
                assert(events@.skip(i as int)[0] == events@[i as int]);
                assert(events@.skip(i as int).drop_first() =~= events@.skip(i as int + 1));
                lemma_rise_total_nonneg(events@.skip(i as int + 1));
                lemma_rise_mul_bound(i as int, events@.len() as int);
            }
            t = t + events[i].0 as u128;
            i += 1;
        }
        proof {
            assert(events@.skip(events@.len() as int) =~= Seq::<(u32, usize)>::empty());
        }
        t
    }
}

proof fn lemma_rise_mul_bound(i: int, n: int)
    by (nonlinear_arith)
    requires
        0 <= i < n,
        n <= usize::MAX,
    ensures
        (i + 1) * (u32::MAX as int) <= n * (u32::MAX as int),
        i * (u32::MAX as int) + u32::MAX <= (i + 1) * (u32::MAX as int),
{
}

} // verus!
