//! Input-side state and the per-wakeup engine driving: auto-repeat
//! tracking, the poll timeout, key handling and the timer sweep.

use vstd::prelude::*;
use crate::game::Game;
use crate::movement::{spec_drop_interval_micros, spec_lock_refresh, spec_moved_piece};
use crate::animation::spec_elapsed;
use crate::scoring::{spec_lock_step, spec_sat_add_u32};
use crate::types::{LastMove, ARE_DELAY_MS};

verus! {

/// Delayed-auto-shift timings, in milliseconds.
pub const DAS_DELAY_MS: u64 = 167;
pub const ARR_INTERVAL_MS: u64 = 33;
pub const DAS_RELEASE_MS: u64 = 100;
/// How often a versus session broadcasts its board, in milliseconds.
pub const BOARD_SYNC_INTERVAL_MS: u64 = 66;

/// Auto-repeat state for one held direction.
pub struct DasState {
    pub direction: i32,
    pub start: u64,
    pub charged: bool,
    pub last_arr_move: u64,
    pub last_event: u64,
}

impl DasState {
    pub fn new(direction: i32, now_ms: u64) -> (d: DasState)
        ensures
            d.direction == direction,
            d.start == now_ms,
            !d.charged,
            d.last_arr_move == now_ms,
            d.last_event == now_ms,
    {
        DasState {
            direction,
            start: now_ms,
            charged: false,
            last_arr_move: now_ms,
            last_event: now_ms,
        }
    }

    /// Re-anchor every timer, as after a pause.
    pub fn reset_timers(&mut self, now_ms: u64)
        ensures
            final(self).direction == old(self).direction,
            final(self).charged == old(self).charged,
            final(self).start == now_ms,
            final(self).last_arr_move == now_ms,
            final(self).last_event == now_ms,
    {
        self.last_event = now_ms;
        self.start = now_ms;
        self.last_arr_move = now_ms;
    }
}

/// Everything the game loop tracks between wakeups: the held direction,
/// buffered rotation and hold during the grace period, and the last
/// gravity tick.
pub struct InputState {
    pub das: Option<DasState>,
    pub irs: Option<i32>,
    pub ihs: bool,
    pub last_tick: u64,
}

impl InputState {
    pub fn new(now_ms: u64) -> (s: InputState)
        ensures
            s.das.is_none(),
            s.irs.is_none(),
            !s.ihs,
            s.last_tick == now_ms,
    {
        InputState { das: None, irs: None, ihs: false, last_tick: now_ms }
    }

    pub fn reset(&mut self, now_ms: u64)
        ensures
            final(self).das.is_none(),
            final(self).irs.is_none(),
            !final(self).ihs,
            final(self).last_tick == now_ms,
    {
        self.das = None;
        self.irs = None;
        self.ihs = false;
        self.last_tick = now_ms;
    }
}

/// The discrete game actions a player can press.
#[derive(Clone, Copy, PartialEq, Eq, Structural, Debug)]
pub enum GameInput {
    MoveLeft,
    MoveRight,
    SoftDrop,
    RotateCw,
    RotateCcw,
    Hold,
    HardDrop,
}

/// Step a menu selection up or down with wraparound.
pub fn menu_nav(sel: usize, count: usize, up: bool) -> (r: usize)
    requires
        count > 0,
        sel < count,
    ensures
        r < count,
        r == if up {
            if sel == 0 { (count - 1) as int } else { sel - 1 }
        } else {
            ((sel + 1) % (count as int))
        },
{
    if up {
        if sel == 0 { count - 1 } else { sel - 1 }
    } else {
        (sel + 1) % count
    }
}

/// The milliseconds left until the deadline `start_ms + delay_ms`; a
/// deadline beyond the clock's range saturates at its end.
pub open spec fn spec_remaining(start_ms: u64, delay_ms: u64, now_ms: u64) -> int {
    let deadline: int = if start_ms + delay_ms > u64::MAX { u64::MAX as int } else { start_ms + delay_ms };
    if deadline >= now_ms { deadline - now_ms } else { 0 }
}

fn remaining(start_ms: u64, delay_ms: u64, now_ms: u64) -> (r: u64)
    ensures
        r == spec_remaining(start_ms, delay_ms, now_ms),
{
    let deadline = start_ms.saturating_add(delay_ms);
    if deadline >= now_ms {
        deadline - now_ms
    } else {
        0
    }
}

/// The poll timeout before the next engine deadline, in milliseconds.
/// The grace period polls coarsely at up to a second; otherwise the next
/// gravity tick, bounded by the running lock delay, decides; the grace
/// timer and the auto-repeat deadlines can only shorten the wait.
pub fn compute_timeout(g: &Game, st: &InputState, now_ms: u64) -> (t: u64)
    ensures
        ({
            let base: int = if g.are_timer.is_some() {
                1000
            } else {
                let gravity = spec_remaining(st.last_tick, spec_drop_interval_micros(g.level) / 1000, now_ms);
                match g.lock_delay {
                    Some(lock_start) => {
                        let lock = spec_remaining(lock_start, g.lock_delay_ms as u64, now_ms);
                        if lock < gravity { lock } else { gravity }
                    },
                    None => gravity,
                }
            };
            let with_are: int = match g.are_timer {
                Some(s) => {
                    let are = spec_remaining(s, ARE_DELAY_MS, now_ms);
                    if are < base { are } else { base }
                },
                None => base,
            };
            let with_das: int = match st.das {
                Some(d) => {
                    let rel = spec_remaining(d.last_event, DAS_RELEASE_MS, now_ms);
                    let a = if rel < with_are { rel } else { with_are };
                    let nxt = if !d.charged {
                        spec_remaining(d.start, DAS_DELAY_MS, now_ms)
                    } else {
                        spec_remaining(d.last_arr_move, ARR_INTERVAL_MS, now_ms)
                    };
                    if nxt < a { nxt } else { a }
                },
                None => with_are,
            };
            t == with_das
        }),
{
    let mut timeout: u64 = if g.are_timer.is_some() {
        1000
    } else {
        let gravity = remaining(st.last_tick, g.drop_interval() / 1000, now_ms);
        match g.lock_delay {
            Some(lock_start) => {
                let lock = remaining(lock_start, g.lock_delay_duration(), now_ms);
                if lock < gravity { lock } else { gravity }
            }
            None => gravity,
        }
    };

    match g.are_timer {
        Some(s) => {
            let are = remaining(s, ARE_DELAY_MS, now_ms);
            if are < timeout {
                timeout = are;
            }
        }
        None => {}
    }

    match &st.das {
        Some(d) => {
            let rel = remaining(d.last_event, DAS_RELEASE_MS, now_ms);
            if rel < timeout {
                timeout = rel;
            }
            let nxt = if !d.charged {
                remaining(d.start, DAS_DELAY_MS, now_ms)
            } else {
                remaining(d.last_arr_move, ARR_INTERVAL_MS, now_ms)
            };
            if nxt < timeout {
                timeout = nxt;
            }
        }
        None => {}
    }

    timeout
}

/// Handle one pressed game action.  Lateral presses start or refresh the
/// auto-repeat; rotation and hold during the grace period are buffered for
/// the next spawn; everything else drives the engine directly.  Reports
/// whether a hard drop locked a piece (its caller owes the post-lock
/// handling).
pub fn handle_game_key(
    input: GameInput,
    game: &mut Game,
    st: &mut InputState,
    now_ms: u64,
) -> (hard_dropped: bool)
    requires
        old(game).wf(),
    ensures
        final(game).wf(),
        hard_dropped == (input == GameInput::HardDrop && old(game).are_timer.is_none()),
        match input {
            GameInput::MoveLeft | GameInput::MoveRight => {
                let dir: i32 = if input == GameInput::MoveLeft { -1i32 } else { 1i32 };
                &&& final(st).irs == old(st).irs
                &&& final(st).ihs == old(st).ihs
                &&& final(st).last_tick == old(st).last_tick
                &&& match old(st).das {
                        Some(d) => if d.direction == dir {
                            final(st).das == Some(DasState { last_event: now_ms, ..d })
                                && *final(game) == *old(game)
                        } else {
                            final(st).das == Some(DasState::spec_fresh(dir, now_ms))
                            && spec_side_move(*old(game), *final(game), dir, now_ms)
                        },
                        None => final(st).das == Some(DasState::spec_fresh(dir, now_ms))
                            && spec_side_move(*old(game), *final(game), dir, now_ms),
                    }
            },
            GameInput::SoftDrop => {
                &&& *final(st) == *old(st)
                &&& if old(game).are_timer.is_some() {
                        *final(game) == *old(game)
                    } else {
                        spec_soft_dropped(*old(game), *final(game), now_ms)
                    }
            },
            GameInput::RotateCw | GameInput::RotateCcw => {
                let dir: i32 = if input == GameInput::RotateCw { 1i32 } else { -1i32 };
                if old(game).are_timer.is_some() {
                    *final(game) == *old(game)
                    && *final(st) == (InputState { irs: Some(dir), ..*old(st) })
                } else {
                    *final(st) == *old(st)
                    && Game::spec_rotated(*old(game), *final(game),
                        spec_turned(old(game).current.rotation, dir), now_ms)
                }
            },
            GameInput::Hold => {
                if old(game).are_timer.is_some() {
                    *final(game) == *old(game)
                    && *final(st) == (InputState { ihs: true, ..*old(st) })
                } else {
                    *final(st) == *old(st)
                    && Game::spec_hold_step(*old(game), *final(game))
                }
            },
            GameInput::HardDrop => {
                if old(game).are_timer.is_some() {
                    *final(game) == *old(game) && *final(st) == *old(st)
                } else {
                    &&& (exists |points: u32|
                            Game::spec_hard_drop_step(*old(game), *final(game), now_ms, points))
                    &&& *final(st) == (InputState { last_tick: now_ms, ..*old(st) })
                }
            },
        },
{
    match input {
        GameInput::MoveLeft | GameInput::MoveRight => {
            let dir: i32 = if input == GameInput::MoveLeft { -1 } else { 1 };
            let same = match &st.das {
                Some(d) => d.direction == dir,
                None => false,
            };
            if same {
                match &mut st.das {
                    Some(d) => {
                        d.last_event = now_ms;
                    }
                    None => {}
                }
            } else {
                st.das = Some(DasState::new(dir, now_ms));
                if !game.in_are() {
                    let _ = game.move_piece(0, dir, now_ms);
                }
            }
            false
        }
        GameInput::SoftDrop => {
            if !game.in_are() {
                let _ = game.soft_drop(now_ms);
            }
            false
        }
        GameInput::RotateCw => {
            if game.in_are() {
                st.irs = Some(1);
            } else {
                game.rotate_cw(now_ms);
            }
            false
        }
        GameInput::RotateCcw => {
            if game.in_are() {
                st.irs = Some(-1);
            } else {
                game.rotate_ccw(now_ms);
            }
            false
        }
        GameInput::Hold => {
            if game.in_are() {
                st.ihs = true;
            } else {
                game.hold_piece();
            }
            false
        }
        GameInput::HardDrop => {
            if !game.in_are() {
                let _ = game.hard_drop(now_ms);
                st.last_tick = now_ms;
                true
            } else {
                false
            }
        }
    }
}

/// What a rotation key turns the current rotation state into.
pub open spec fn spec_turned(rotation: u8, dir: i32) -> u8 {
    if dir == 1 { ((rotation + 1) % 4) as u8 } else { ((rotation + 3) % 4) as u8 }
}

/// One sideways step: the piece either shifts by `dir` (with the lock
/// delay refreshed) or nothing changes.
pub open spec fn spec_side_move(pre: Game, post: Game, dir: i32, now_ms: u64) -> bool {
    if pre.are_timer.is_some() {
        post == pre
    } else {
        let moved = spec_moved_piece(pre.current, 0, dir);
        if moved.wf() && pre.spec_fits(moved) {
            spec_lock_refresh(Game { current: moved, last_move: LastMove::Move, ..pre }, post, now_ms)
        } else {
            post == pre
        }
    }
}

/// One soft-drop step: a one-point descent or no change.
pub open spec fn spec_soft_dropped(pre: Game, post: Game, now_ms: u64) -> bool {
    let moved = spec_moved_piece(pre.current, 1, 0);
    if moved.wf() && pre.spec_fits(moved) {
        post.score == spec_sat_add_u32(pre.score, 1)
        && spec_lock_refresh(
            Game { current: moved, last_move: LastMove::Move, ..pre },
            Game { score: pre.score, ..post },
            now_ms,
        )
    } else {
        post == pre
    }
}

impl DasState {
    /// A freshly started auto-repeat.
    pub open spec fn spec_fresh(direction: i32, now_ms: u64) -> DasState {
        DasState {
            direction,
            start: now_ms,
            charged: false,
            last_arr_move: now_ms,
            last_event: now_ms,
        }
    }
}

/// The auto-repeat state after the release check: a held direction whose
/// key was last seen too long ago is dropped.
pub open spec fn spec_das_released(st: InputState, now_ms: u64) -> InputState {
    match st.das {
        Some(d) => if spec_elapsed(now_ms, d.last_event) >= DAS_RELEASE_MS {
            InputState { das: None, ..st }
        } else {
            st
        },
        None => st,
    }
}

/// Whether the auto-repeat owes a step this wakeup: the charge delay has
/// passed for an uncharged direction, or the repeat interval for a
/// charged one.
pub open spec fn spec_das_due(st: InputState, now_ms: u64) -> bool {
    match st.das {
        Some(d) => if !d.charged {
            spec_elapsed(now_ms, d.start) >= DAS_DELAY_MS
        } else {
            spec_elapsed(now_ms, d.last_arr_move) >= ARR_INTERVAL_MS
        },
        None => false,
    }
}

/// The auto-repeat state after its step fired: charged, with the repeat
/// timer re-anchored.
pub open spec fn spec_das_stepped(st: InputState, now_ms: u64) -> InputState {
    match st.das {
        Some(d) => InputState {
            das: Some((DasState { charged: true, last_arr_move: now_ms, ..d })),
            ..st
        },
        None => st,
    }
}

/// The game after the auto-repeat phase of one timer sweep: outside the
/// grace period, a due held direction steps the piece once by the
/// side-move relation; otherwise nothing happens.
pub open spec fn spec_das_phase(pre: Game, post: Game, st: InputState, now_ms: u64) -> bool {
    let st1 = spec_das_released(st, now_ms);
    match st1.das {
        Some(d) => if pre.are_timer.is_none() && spec_das_due(st1, now_ms)
                && -2 <= d.direction <= 2 {
            spec_side_move(pre, post, d.direction, now_ms)
        } else {
            post == pre
        },
        None => post == pre,
    }
}

/// The chain of steps at the end of the grace period: the spawn (or the
/// goal-met game end), then the buffered hold, then the buffered rotation,
/// then the charged auto-repeat slam.
pub open spec fn spec_are_end_chain(
    pre: Game, g1: Game, g2: Game, g3: Game, post: Game,
    st_pre: InputState, st1: InputState, now_ms: u64,
) -> bool {
    &&& Game::spec_are_spawn(pre, g1)
    &&& (if st_pre.ihs { Game::spec_hold_step(g1, g2) } else { g2 == g1 })
    &&& (match st_pre.irs {
            Some(r) => Game::spec_rotated(g2, g3,
                ((g2.current.rotation + (if r > 0 { 1int } else { 3int })) % 4) as u8,
                now_ms),
            None => g3 == g2,
        })
    &&& (match st1.das {
            Some(d) => if d.charged && (d.direction == 1 || d.direction == -1) {
                Game::spec_slam_step(g3, post, d.direction, now_ms)
            } else {
                post == g3
            },
            None => post == g3,
        })
}

/// Finish an ended grace period: consume the buffered hold and rotation,
/// re-anchor the tick clock, and slam a charged auto-repeat direction.
/// Runs on the state the spawn step produced.
#[verifier::spinoff_prover]
#[verifier::rlimit(100)]
fn end_grace_period(
    game: &mut Game,
    st: &mut InputState,
    Ghost(pre): Ghost<Game>,
    Ghost(st0): Ghost<InputState>,
    Ghost(st1): Ghost<InputState>,
    now_ms: u64,
)
    requires
        old(game).wf(),
        Game::spec_are_spawn(pre, *old(game)),
        old(st).das == st1.das,
        old(st).ihs == st0.ihs,
        old(st).irs == st0.irs,
    ensures
        final(game).wf(),
        exists |g1: Game, g2: Game, g3: Game|
            #[trigger] spec_are_end_chain(pre, g1, g2, g3, *final(game), st0, st1, now_ms),
        !final(st).ihs,
        final(st).irs is None,
        final(st).last_tick == now_ms,
        final(st).das == (match st1.das {
            Some(d) => if d.charged && (d.direction == 1 || d.direction == -1) {
                Some((DasState { last_arr_move: now_ms, ..d }))
            } else {
                Some(d)
            },
            None => None::<DasState>,
        }),
        final(game).board == old(game).board,
        final(game).score == old(game).score,
        final(game).lines == old(game).lines,
        final(game).level == old(game).level,
        final(game).combo == old(game).combo,
{
    let ghost g1 = *game;
    if st.ihs {
        st.ihs = false;
        game.hold_piece();
    }
    let ghost g2 = *game;
    match st.irs {
        Some(dir) => {
            st.irs = None;
            if dir > 0 {
                game.rotate_cw(now_ms);
            } else {
                game.rotate_ccw(now_ms);
            }
        }
        None => {}
    }
    let ghost g3 = *game;
    st.last_tick = now_ms;
    let charged_dir = match &st.das {
        Some(d) => if d.charged { Some(d.direction) } else { None },
        None => None,
    };
    match charged_dir {
        Some(dir) => {
            if dir == 1 || dir == -1 {
                game.slam_sideways(dir, now_ms);
                match &mut st.das {
                    Some(d) => {
                        d.last_arr_move = now_ms;
                    }
                    None => {}
                }
            }
        }
        None => {}
    }
    proof {
        assert(spec_are_end_chain(pre, g1, g2, g3, *game, st0, st1, now_ms));
    }
}

/// One sweep of the engine timers, between polling for input: release or
/// fire the auto-repeat, end the grace period (spawning with any buffered
/// rotation or hold and slamming a charged direction), commit an expired
/// lock delay, and run the gravity tick.  Reports whether a piece locked
/// (its caller owes the post-lock handling).  Outside the grace period
/// the report is exactly the lock-delay expiry, judged after the
/// auto-repeat step; a lock runs the full lock step from that state, and
/// an elapsed gravity interval runs the gravity tick.
#[verifier::rlimit(100)]
pub fn update_game_timers(game: &mut Game, st: &mut InputState, now_ms: u64) -> (locked: bool)
    requires
        old(game).wf(),
    ensures
        final(game).wf(),
        locked ==> final(st).last_tick == now_ms,
        !locked ==> final(game).board == old(game).board
            && final(game).score == old(game).score
            && final(game).lines == old(game).lines
            && final(game).level == old(game).level
            && final(game).combo == old(game).combo,
        ({
            let st1 = spec_das_released(*old(st), now_ms);
            match old(game).are_timer {
                Some(are_start) => {
                    &&& !locked
                    &&& final(st).das == (match st1.das {
                            Some(d) => if spec_elapsed(now_ms, are_start) >= ARE_DELAY_MS
                                    && d.charged && (d.direction == 1 || d.direction == -1) {
                                Some((DasState { last_arr_move: now_ms, ..d }))
                            } else {
                                Some(d)
                            },
                            None => None::<DasState>,
                        })
                    &&& if spec_elapsed(now_ms, are_start) >= ARE_DELAY_MS {
                            &&& !final(st).ihs
                            &&& final(st).irs is None
                            &&& final(st).last_tick == now_ms
                            &&& exists |g1: Game, g2: Game, g3: Game|
                                    #[trigger] spec_are_end_chain(*old(game), g1, g2, g3,
                                        *final(game), *old(st), st1, now_ms)
                        } else {
                            &&& *final(game) == *old(game)
                            &&& final(st).ihs == old(st).ihs
                            &&& final(st).irs == old(st).irs
                            &&& final(st).last_tick == old(st).last_tick
                        }
                },
                None => {
                    let fired = spec_das_due(st1, now_ms);
                    let gravity_due = spec_elapsed(now_ms, old(st).last_tick)
                        >= spec_drop_interval_micros(old(game).level) / 1000;
                    &&& final(st).ihs == old(st).ihs
                    &&& final(st).irs == old(st).irs
                    &&& final(st).das == (if fired {
                            spec_das_stepped(st1, now_ms).das
                        } else {
                            st1.das
                        })
                    &&& final(st).last_tick == (if locked || gravity_due {
                            now_ms
                        } else {
                            old(st).last_tick
                        })
                    &&& exists |mid: Game| {
                            &&& #[trigger] spec_das_phase(*old(game), mid, *old(st), now_ms)
                            &&& locked == (match mid.lock_delay {
                                    Some(s) => spec_elapsed(now_ms, s) >= mid.lock_delay_ms,
                                    None => false,
                                })
                            &&& if locked {
                                    spec_lock_step(Game { lock_delay: None, ..mid }, *final(game), now_ms)
                                } else if gravity_due {
                                    Game::spec_gravity_ticked(mid, *final(game), now_ms)
                                } else {
                                    *final(game) == mid
                                }
                        }
                },
            }
        }),
{
    // auto-repeat release
    let release = match &st.das {
        Some(d) => {
            let since = if now_ms >= d.last_event { now_ms - d.last_event } else { 0 };
            since >= DAS_RELEASE_MS
        }
        None => false,
    };
    if release {
        st.das = None;
    }
    let ghost st1 = *st;
    proof {
        assert(st1 == spec_das_released(*old(st), now_ms));
    }

    // auto-repeat charge and fire
    if !game.in_are() {
        let step = match &mut st.das {
            Some(d) => {
                if !d.charged {
                    let since = if now_ms >= d.start { now_ms - d.start } else { 0 };
                    if since >= DAS_DELAY_MS {
                        d.charged = true;
                        d.last_arr_move = now_ms;
                        Some(d.direction)
                    } else {
                        None
                    }
                } else {
                    let since = if now_ms >= d.last_arr_move { now_ms - d.last_arr_move } else { 0 };
                    if since >= ARR_INTERVAL_MS {
                        d.last_arr_move = now_ms;
                        Some(d.direction)
                    } else {
                        None
                    }
                }
            }
            None => None,
        };
        proof {
            assert(*st == (if spec_das_due(st1, now_ms) { spec_das_stepped(st1, now_ms) } else { st1 }));
        }
        match step {
            Some(dir) => {
                if dir >= -2 && dir <= 2 {
                    let _ = game.move_piece(0, dir, now_ms);
                }
            }
            None => {}
        }
    }
    let ghost mid = *game;
    proof {
        assert(spec_das_phase(*old(game), mid, *old(st), now_ms));
    }

    // grace period: spawn with any buffered rotation or hold
    if game.in_are() {
        if game.check_are(now_ms) {
            end_grace_period(game, st, Ghost(*old(game)), Ghost(*old(st)), Ghost(st1), now_ms);
        }
        return false;
    }

    // lock delay expiry
    let lock_expired = match game.lock_delay {
        Some(lock_start) => {
            let since = if now_ms >= lock_start { now_ms - lock_start } else { 0 };
            since >= game.lock_delay_duration()
        }
        None => false,
    };
    if lock_expired {
        game.lock_delay = None;
        let ghost pre_lock = *game;
        let _ = game.lock_and_begin_clear(now_ms);
        st.last_tick = now_ms;
        proof {
            assert(pre_lock == (Game { lock_delay: None, ..mid }));
            assert(spec_lock_step(pre_lock, *game, now_ms));
        }
        return true;
    }

    // gravity tick
    let since_tick = if now_ms >= st.last_tick { now_ms - st.last_tick } else { 0 };
    if since_tick >= game.drop_interval() / 1000 {
        game.tick(now_ms);
        st.last_tick = now_ms;
    }

    false
}

} // verus!
