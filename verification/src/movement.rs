//! Movement and rotation of the active piece, the gravity tick and the
//! lock-delay bookkeeping.

use vstd::prelude::*;
use crate::game::Game;
use crate::piece::{
    kicks, kick_index, lemma_offsets_bounded, spec_kicks, spec_kick_index, Piece,
    BOARD_HEIGHT, KIND_I, KIND_O, MAX_POS,
};
use crate::types::LastMove;

verus! {

/// Whether a lateral move or rotation may still restart the lock delay:
/// always when no reset cap is configured, else while the cap is not hit.
pub open spec fn spec_can_move_reset(g: Game) -> bool {
    match g.move_reset {
        Some(limit) => g.move_reset_count < limit,
        None => true,
    }
}

pub open spec fn spec_bumped_count(c: u32) -> u32 {
    if c < u32::MAX { (c + 1) as u32 } else { c }
}

/// How a successful move or rotation reworks the lock-delay state: a piece
/// on the ground restarts the delay while resets remain; a piece lifted off
/// the ground drops the delay entirely.
pub open spec fn spec_lock_refresh(pre: Game, post: Game, now_ms: u64) -> bool {
    if pre.lock_delay.is_some() {
        if pre.spec_on_ground() {
            if spec_can_move_reset(pre) {
                post == (Game {
                    lock_delay: Some(now_ms),
                    move_reset_count: spec_bumped_count(pre.move_reset_count),
                    ..pre
                })
            } else {
                post == pre
            }
        } else {
            post == (Game { lock_delay: None, ..pre })
        }
    } else {
        post == pre
    }
}

/// The piece shifted by (dr, dc).
pub open spec fn spec_moved_piece(p: Piece, dr: i32, dc: i32) -> Piece {
    Piece { row: (p.row + dr) as i32, col: (p.col + dc) as i32, ..p }
}

/// Gravity at a level, in thousandths of a cell per tick, following the
/// standard curve (0.8 - (level-1) * 0.007)^(level-1) seconds per row at 60
/// ticks per second, capped at 20 cells per tick.
pub open spec fn spec_gravity_milli(level: u32) -> u64 {
    if level <= 1 { 17 }
    else if level == 2 { 21 }
    else if level == 3 { 27 }
    else if level == 4 { 35 }
    else if level == 5 { 47 }
    else if level == 6 { 64 }
    else if level == 7 { 88 }
    else if level == 8 { 124 }
    else if level == 9 { 178 }
    else if level == 10 { 260 }
    else if level == 11 { 388 }
    else if level == 12 { 591 }
    else if level == 13 { 918 }
    else if level == 14 { 1457 }
    else if level == 15 { 2361 }
    else if level == 16 { 3909 }
    else if level == 17 { 6614 }
    else if level == 18 { 11438 }
    else { 20000 }
}

/// Microseconds between gravity ticks at a level: the curve's seconds per
/// row while gravity is below one cell per tick, one frame beyond that.
pub open spec fn spec_drop_interval_micros(level: u32) -> u64 {
    if level <= 1 { 1000000 }
    else if level == 2 { 793000 }
    else if level == 3 { 617796 }
    else if level == 4 { 472729 }
    else if level == 5 { 355197 }
    else if level == 6 { 262004 }
    else if level == 7 { 189677 }
    else if level == 8 { 134735 }
    else if level == 9 { 93882 }
    else if level == 10 { 64152 }
    else if level == 11 { 42976 }
    else if level == 12 { 28218 }
    else if level == 13 { 18153 }
    else { 16667 }
}

/// How many whole rows one tick tries to advance when gravity is below the
/// free-fall cap.
pub open spec fn spec_tick_rows(mg: u64) -> int {
    if mg >= 1000 { (mg / 1000) as int } else { 1 }
}

pub fn gravity_milli(level: u32) -> (g: u64)
    ensures
        g == spec_gravity_milli(level),
{
    if level <= 1 { 17 }
    else if level == 2 { 21 }
    else if level == 3 { 27 }
    else if level == 4 { 35 }
    else if level == 5 { 47 }
    else if level == 6 { 64 }
    else if level == 7 { 88 }
    else if level == 8 { 124 }
    else if level == 9 { 178 }
    else if level == 10 { 260 }
    else if level == 11 { 388 }
    else if level == 12 { 591 }
    else if level == 13 { 918 }
    else if level == 14 { 1457 }
    else if level == 15 { 2361 }
    else if level == 16 { 3909 }
    else if level == 17 { 6614 }
    else if level == 18 { 11438 }
    else { 20000 }
}


/// A piece whose one-row descent is rejected is resting on the stack, the
/// floor, or the edge of the safe position range (which lies far below the
/// board, where nothing fits anyway).
pub(crate) proof fn lemma_blocked_is_grounded(g: Game)
    requires
        g.wf(),
        !(spec_moved_piece(g.current, 1, 0).wf() && g.spec_fits(spec_moved_piece(g.current, 1, 0))),
    ensures
        g.spec_on_ground(),
{
    let moved = spec_moved_piece(g.current, 1, 0);
    let probe = Piece { row: (g.current.row + 1) as i32, ..g.current };
    assert(moved == probe);
    if moved.wf() {
        assert(!g.spec_fits(probe));
    } else {
        assert(g.current.row == MAX_POS);
        lemma_offsets_bounded(probe.kind, probe.rotation);
        assert(probe.spec_cell_at(0).0 >= BOARD_HEIGHT);
        assert(!g.spec_cell_free(probe.spec_cell_at(0).0, probe.spec_cell_at(0).1));
        assert(!g.spec_fits(probe));
    }
}

impl Game {
    /// Restart, keep or drop the lock delay after a successful move or
    /// rotation of the active piece.
    pub(crate) fn refresh_lock_delay(&mut self, now_ms: u64)
        requires
            old(self).wf(),
        ensures
            final(self).wf(),
            spec_lock_refresh(*old(self), *final(self), now_ms),
    {
        if self.lock_delay.is_some() {
            if self.is_on_ground() {
                let can = match self.move_reset {
                    None => true,
                    Some(limit) => self.move_reset_count < limit,
                };
                if can {
                    self.lock_delay = Some(now_ms);
                    if self.move_reset_count < u32::MAX {
                        self.move_reset_count = self.move_reset_count + 1;
                    }
                }
            } else {
                self.lock_delay = None;
            }
        }
    }

    /// Try to shift the active piece by (dr, dc).  The move succeeds only
    /// onto a fitting position, records itself as the last action, and
    /// refreshes the lock delay.
    pub fn move_piece(&mut self, dr: i32, dc: i32, now_ms: u64) -> (b: bool)
        requires
            old(self).wf(),
            -2 <= dr <= 2,
            -2 <= dc <= 2,
        ensures
            final(self).wf(),
            ({
                let moved = spec_moved_piece(old(self).current, dr, dc);
                &&& b == (moved.wf() && old(self).spec_fits(moved))
                &&& b ==> spec_lock_refresh(
                        Game { current: moved, last_move: LastMove::Move, ..*old(self) },
                        *final(self),
                        now_ms,
                    )
                &&& !b ==> *final(self) == *old(self)
            }),
    {
        let mut moved = self.current;
        moved.row = moved.row + dr;
        moved.col = moved.col + dc;
        if moved.row < -MAX_POS || moved.row > MAX_POS || moved.col < -MAX_POS || moved.col > MAX_POS {
            return false;
        }
        if self.fits(&moved) {
            self.current = moved;
            self.last_move = LastMove::Move;
            self.refresh_lock_delay(now_ms);
            true
        } else {
            false
        }
    }

    /// The piece as placed by kick attempt `k` of the transition to
    /// rotation `to`.
    pub open spec fn spec_kick_attempt(self, to: u8, k: int) -> Piece {
        let table = spec_kicks(self.current.kind == KIND_I, spec_kick_index(self.current.rotation, to));
        let d = if k == 0 { table.0 }
            else if k == 1 { table.1 }
            else if k == 2 { table.2 }
            else if k == 3 { table.3 }
            else { table.4 };
        Piece {
            rotation: to,
            row: (self.current.row + d.1) as i32,
            col: (self.current.col + d.0) as i32,
            ..self.current
        }
    }

    /// Whether kick attempt `k` lands on a fitting, in-range position.
    pub open spec fn spec_kick_ok(self, to: u8, k: int) -> bool {
        let p = self.spec_kick_attempt(to, k);
        p.wf() && self.spec_fits(p)
    }

    /// The first kick attempt that fits decides the rotation; later
    /// attempts are never tried.  None means the rotation is rejected.
    pub open spec fn spec_rotation_result(self, to: u8) -> Option<Piece> {
        if !self.srs {
            let p = Piece { rotation: to, ..self.current };
            if p.wf() && self.spec_fits(p) { Some(p) } else { None }
        } else if self.spec_kick_ok(to, 0) { Some(self.spec_kick_attempt(to, 0)) }
        else if self.spec_kick_ok(to, 1) { Some(self.spec_kick_attempt(to, 1)) }
        else if self.spec_kick_ok(to, 2) { Some(self.spec_kick_attempt(to, 2)) }
        else if self.spec_kick_ok(to, 3) { Some(self.spec_kick_attempt(to, 3)) }
        else if self.spec_kick_ok(to, 4) { Some(self.spec_kick_attempt(to, 4)) }
        else { None }
    }

    /// How a rotation attempt reworks the state: the square never rotates;
    /// otherwise the first fitting kick is applied, recorded as a rotation,
    /// and the lock delay is refreshed; a rejected rotation changes nothing.
    pub open spec fn spec_rotated(pre: Game, post: Game, to: u8, now_ms: u64) -> bool {
        if pre.current.kind == KIND_O {
            post == pre
        } else {
            match pre.spec_rotation_result(to) {
                Some(p) => spec_lock_refresh(
                    Game { current: p, last_move: LastMove::Rotate, ..pre },
                    post,
                    now_ms,
                ),
                None => post == pre,
            }
        }
    }

    /// One kick attempt: rotate to `to` and shift by the kick offset
    /// (dc, dr); apply it if the result fits.
    fn try_kick(&mut self, to: u8, dc: i32, dr: i32, now_ms: u64, Ghost(k): Ghost<int>) -> (b: bool)
        requires
            old(self).wf(),
            to < 4,
            ({
                let table = spec_kicks(old(self).current.kind == KIND_I,
                    spec_kick_index(old(self).current.rotation, to));
                let d = if k == 0 { table.0 }
                    else if k == 1 { table.1 }
                    else if k == 2 { table.2 }
                    else if k == 3 { table.3 }
                    else { table.4 };
                d.0 == dc as int && d.1 == dr as int && -2 <= d.0 <= 2 && -2 <= d.1 <= 2
            }),
        ensures
            final(self).wf(),
            b == old(self).spec_kick_ok(to, k),
            b ==> spec_lock_refresh(
                Game {
                    current: old(self).spec_kick_attempt(to, k),
                    last_move: LastMove::Rotate,
                    ..*old(self)
                },
                *final(self),
                now_ms,
            ),
            !b ==> *final(self) == *old(self),
    {
        let mut test = self.current;
        test.rotation = to;
        test.row = test.row + dr;
        test.col = test.col + dc;
        if test.row < -MAX_POS || test.row > MAX_POS || test.col < -MAX_POS || test.col > MAX_POS {
            return false;
        }
        if self.fits(&test) {
            self.current = test;
            self.last_move = LastMove::Rotate;
            self.refresh_lock_delay(now_ms);
            true
        } else {
            false
        }
    }

    /// Attempt a rotation to `to`, trying the kick offsets in order when
    /// kicks are enabled, or only the unshifted rotation when not.
    pub(crate) fn try_rotate(&mut self, to: u8, now_ms: u64)
        requires
            old(self).wf(),
            to < 4,
        ensures
            final(self).wf(),
            Game::spec_rotated(*old(self), *final(self), to, now_ms),
    {
        if self.current.kind == KIND_O {
            return;
        }

        if self.srs {
            let idx = kick_index(self.current.rotation, to);
            let table = kicks(self.current.kind == KIND_I, idx);
            if self.try_kick(to, table.0.0, table.0.1, now_ms, Ghost(0)) {
                return;
            }
            if self.try_kick(to, table.1.0, table.1.1, now_ms, Ghost(1)) {
                return;
            }
            if self.try_kick(to, table.2.0, table.2.1, now_ms, Ghost(2)) {
                return;
            }
            if self.try_kick(to, table.3.0, table.3.1, now_ms, Ghost(3)) {
                return;
            }
            if self.try_kick(to, table.4.0, table.4.1, now_ms, Ghost(4)) {
                return;
            }
        } else {
            let mut test = self.current;
            test.rotation = to;
            if self.fits(&test) {
                self.current = test;
                self.last_move = LastMove::Rotate;
                self.refresh_lock_delay(now_ms);
            }
        }
    }

    /// Rotate the active piece a quarter turn clockwise.
    pub fn rotate_cw(&mut self, now_ms: u64)
        requires
            old(self).wf(),
        ensures
            final(self).wf(),
            Game::spec_rotated(*old(self), *final(self),
                ((old(self).current.rotation + 1) % 4) as u8, now_ms),
    {
        let new_rot = (self.current.rotation + 1) % 4;
        self.try_rotate(new_rot, now_ms);
    }

    /// Rotate the active piece a quarter turn counter-clockwise.
    pub fn rotate_ccw(&mut self, now_ms: u64)
        requires
            old(self).wf(),
        ensures
            final(self).wf(),
            Game::spec_rotated(*old(self), *final(self),
                ((old(self).current.rotation + 3) % 4) as u8, now_ms),
    {
        let new_rot = (self.current.rotation + 3) % 4;
        self.try_rotate(new_rot, now_ms);
    }


    /// Whether the current piece, moved to column `col`, would fit.
    pub open spec fn spec_fits_at_col(self, col: int) -> bool {
        self.spec_fits(Piece { col: col as i32, ..self.current })
    }

    /// How a charged auto-repeat slams a fresh piece against the wall: the
    /// piece shifts in its held direction through fitting columns until the
    /// next one is blocked or out of the safe range.  A lock delay that was
    /// off stays off; a moved piece records the move.
    pub open spec fn spec_slam_step(pre: Game, post: Game, dir: i32, now_ms: u64) -> bool {
        &&& post == (Game {
                current: post.current,
                lock_delay: post.lock_delay,
                last_move: post.last_move,
                move_reset_count: post.move_reset_count,
                ..pre
            })
        &&& post.current.kind == pre.current.kind
        &&& post.current.rotation == pre.current.rotation
        &&& post.current.row == pre.current.row
        &&& (post.current.col - pre.current.col) * dir >= 0
        &&& forall |j: int|
                ((dir == 1 && pre.current.col < j <= post.current.col)
                 || (dir == -1 && post.current.col <= j < pre.current.col))
                ==> #[trigger] pre.spec_fits_at_col(j)
        &&& ({
                let beyond = spec_moved_piece(post.current, 0, dir);
                !(beyond.wf() && post.spec_fits(beyond))
            })
        &&& (pre.lock_delay.is_none() ==> post.lock_delay.is_none())
        &&& (post.current.col != pre.current.col ==> post.last_move == LastMove::Move)
        &&& (post.current.col == pre.current.col
                ==> post.last_move == pre.last_move
                    && post.lock_delay == pre.lock_delay
                    && post.move_reset_count == pre.move_reset_count)
    }

    /// Shift the active piece in one direction until it is blocked, as a
    /// charged auto-repeat does the moment a new piece spawns.
    pub fn slam_sideways(&mut self, dir: i32, now_ms: u64)
        requires
            old(self).wf(),
            dir == 1 || dir == -1,
        ensures
            final(self).wf(),
            Game::spec_slam_step(*old(self), *final(self), dir, now_ms),
    {
        let ghost start = *self;
        while self.move_piece(0, dir, now_ms)
            invariant
                self.wf(),
                start.wf(),
                dir == 1 || dir == -1,
                self.current.kind == start.current.kind,
                self.current.rotation == start.current.rotation,
                self.current.row == start.current.row,
                (self.current.col - start.current.col) * dir >= 0,
                -MAX_POS <= self.current.col <= MAX_POS,
                *self == (Game {
                    current: self.current,
                    lock_delay: self.lock_delay,
                    last_move: self.last_move,
                    move_reset_count: self.move_reset_count,
                    ..start
                }),
                forall |j: int|
                    ((dir == 1 && start.current.col < j <= self.current.col)
                     || (dir == -1 && self.current.col <= j < start.current.col))
                    ==> #[trigger] start.spec_fits_at_col(j),
                start.lock_delay.is_none() ==> self.lock_delay.is_none(),
                self.current.col != start.current.col ==> self.last_move == LastMove::Move,
                self.current.col == start.current.col
                    ==> self.last_move == start.last_move
                        && self.lock_delay == start.lock_delay
                        && self.move_reset_count == start.move_reset_count,
            decreases
                (if dir == 1 {
                    MAX_POS + 2 - self.current.col
                } else {
                    MAX_POS + 2 + self.current.col
                }),
        {
        }
    }

    /// Move the piece down one row for one point; a blocked descent changes
    /// nothing and scores nothing.
    pub fn soft_drop(&mut self, now_ms: u64) -> (b: bool)
        requires
            old(self).wf(),
        ensures
            final(self).wf(),
            ({
                let moved = spec_moved_piece(old(self).current, 1, 0);
                &&& b == (moved.wf() && old(self).spec_fits(moved))
                &&& b ==> final(self).score
                        == (if old(self).score < u32::MAX { old(self).score + 1 } else { u32::MAX as int })
                &&& b ==> spec_lock_refresh(
                        Game { current: moved, last_move: LastMove::Move, ..*old(self) },
                        Game { score: old(self).score, ..*final(self) },
                        now_ms,
                    )
                &&& !b ==> *final(self) == *old(self)
            }),
    {
        if self.move_piece(1, 0, now_ms) {
            if self.score < u32::MAX {
                self.score = self.score + 1;
            }
            true
        } else {
            false
        }
    }

    /// How one gravity tick reworks the session: at the free-fall cap the
    /// piece drops to the floor; otherwise it descends by the whole rows
    /// gravity grants (at least one), stopping early when blocked, and a
    /// blocked piece has its lock delay armed if it was not already
    /// running.
    pub open spec fn spec_gravity_ticked(pre: Game, post: Game, now_ms: u64) -> bool {
        &&& post == (Game {
                current: post.current,
                lock_delay: post.lock_delay,
                last_move: post.last_move,
                move_reset_count: post.move_reset_count,
                ..pre
            })
        &&& post.current.kind == pre.current.kind
        &&& post.current.rotation == pre.current.rotation
        &&& post.current.col == pre.current.col
        &&& pre.current.row <= post.current.row
        &&& forall |j: int| pre.current.row < j <= post.current.row
                ==> #[trigger] pre.spec_fits_at(j)
        &&& ({
                let mg = spec_gravity_milli(pre.level);
                &&& mg >= 20000 ==> post.spec_on_ground() && post.lock_delay.is_some()
                &&& mg < 20000 ==> post.current.row - pre.current.row <= spec_tick_rows(mg)
                &&& (mg < 20000 && post.current.row - pre.current.row < spec_tick_rows(mg))
                    ==> post.spec_on_ground() && post.lock_delay.is_some()
            })
        &&& (post.current.row > pre.current.row ==> post.last_move == LastMove::Move)
        &&& (post.current.row == pre.current.row ==> post.last_move == pre.last_move)
    }

    /// One gravity tick: at the free-fall cap the piece drops to the floor;
    /// otherwise it advances by the whole rows gravity grants (at least
    /// one), stopping early when blocked.  A blocked piece has its lock
    /// delay armed if it was not already running.
    pub fn tick(&mut self, now_ms: u64)
        requires
            old(self).wf(),
        ensures
            final(self).wf(),
            Game::spec_gravity_ticked(*old(self), *final(self), now_ms),
    {
        let mg = gravity_milli(self.level);
        let ghost pre = *self;
        if mg >= 20000 {
            while self.move_piece(1, 0, now_ms)
                invariant
                    self.wf(),
                    pre == *old(self),
                    self.current.kind == pre.current.kind,
                    self.current.rotation == pre.current.rotation,
                    self.current.col == pre.current.col,
                    pre.current.row <= self.current.row <= MAX_POS,
                    *self == (Game {
                        current: self.current,
                        lock_delay: self.lock_delay,
                        last_move: self.last_move,
                        move_reset_count: self.move_reset_count,
                        ..pre
                    }),
                    forall |j: int| pre.current.row < j <= self.current.row
                        ==> #[trigger] pre.spec_fits_at(j),
                    self.current.row > pre.current.row ==> self.last_move == LastMove::Move,
                    self.current.row == pre.current.row
                        ==> self.last_move == pre.last_move && self.lock_delay == pre.lock_delay
                            && self.move_reset_count == pre.move_reset_count,
                decreases MAX_POS + 2 - self.current.row,
            {
            }
            proof {
                lemma_blocked_is_grounded(*self);
            }
            if self.lock_delay.is_none() {
                self.lock_delay = Some(now_ms);
            }
        } else if mg >= 1000 {
            let rows: u64 = mg / 1000;
            let mut i: u64 = 0;
            while i < rows
                invariant
                    self.wf(),
                    pre == *old(self),
                    spec_gravity_milli(pre.level) == mg,
                    1000 <= mg < 20000,
                    rows == mg / 1000,
                    i <= rows,
                    self.current.kind == pre.current.kind,
                    self.current.rotation == pre.current.rotation,
                    self.current.col == pre.current.col,
                    self.current.row == pre.current.row + i,
                    self.current.row <= MAX_POS,
                    *self == (Game {
                        current: self.current,
                        lock_delay: self.lock_delay,
                        last_move: self.last_move,
                        move_reset_count: self.move_reset_count,
                        ..pre
                    }),
                    forall |j: int| pre.current.row < j <= self.current.row
                        ==> #[trigger] pre.spec_fits_at(j),
                    self.current.row > pre.current.row ==> self.last_move == LastMove::Move,
                    self.current.row == pre.current.row
                        ==> self.last_move == pre.last_move && self.lock_delay == pre.lock_delay
                            && self.move_reset_count == pre.move_reset_count,
                decreases rows - i,
            {
                if !self.move_piece(1, 0, now_ms) {
                    proof {
                        lemma_blocked_is_grounded(*self);
                    }
                    if self.lock_delay.is_none() {
                        self.lock_delay = Some(now_ms);
                    }
                    return;
                }
                i += 1;
            }
        } else {
            if !self.move_piece(1, 0, now_ms) {
                proof {
                    lemma_blocked_is_grounded(*self);
                }
                if self.lock_delay.is_none() {
                    self.lock_delay = Some(now_ms);
                }
            }
        }
    }

    /// Microseconds between gravity ticks at the current level.
    pub fn drop_interval(&self) -> (d: u64)
        ensures
            d == spec_drop_interval_micros(self.level),
    {
        let level = self.level;
        if level <= 1 { 1000000 }
        else if level == 2 { 793000 }
        else if level == 3 { 617796 }
        else if level == 4 { 472729 }
        else if level == 5 { 355197 }
        else if level == 6 { 262004 }
        else if level == 7 { 189677 }
        else if level == 8 { 134735 }
        else if level == 9 { 93882 }
        else if level == 10 { 64152 }
        else if level == 11 { 42976 }
        else if level == 12 { 28218 }
        else if level == 13 { 18153 }
        else { 16667 }
    }

    /// How long the lock delay runs before the piece is committed, in
    /// milliseconds.
    pub fn lock_delay_duration(&self) -> (d: u64)
        ensures
            d == self.lock_delay_ms as u64,
    {
        self.lock_delay_ms as u64
    }
}

} // verus!
