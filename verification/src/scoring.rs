//! Locking a piece: spin detection, line detection, scoring with combo and
//! back-to-back streaks, perfect-clear bonus, level advance, and the choice
//! between immediate clearing and the clear animation.

use vstd::prelude::*;
use vstd::string::StringExecFns;
use crate::game::{
    board_cell, board_full_rows, board_row_empty, kept_rows_upto,
    lemma_board_full_rows_upto_props, lemma_kept_rows_upto_props, Game,
};
use crate::piece::{
    spec_t_back_corners, spec_t_front_corners, t_back_corners, t_front_corners, Piece,
    BOARD_CELLS, BOARD_HEIGHT, BOARD_WIDTH, KIND_T,
};
use crate::types::{ClearAction, GameMode, LastMove, LineClearAnimation};

verus! {

/// Whether the piece covers board cell (r, c).
pub open spec fn spec_piece_covers(p: Piece, r: int, c: int) -> bool {
    exists |i: int| 0 <= i < 4 && #[trigger] p.spec_cell_at(i) == (r, c)
}

/// One corner probe relative to the piece position; off-board probes count
/// as occupied.
pub open spec fn spec_corner_occ(g: Game, d: (int, int)) -> bool {
    g.spec_occupied(g.current.row + d.0, g.current.col + d.1)
}

/// How many of the two front corners of a T piece are occupied.
pub open spec fn spec_front_corner_count(g: Game) -> int {
    let f = spec_t_front_corners(g.current.rotation);
    (if spec_corner_occ(g, f.0) { 1int } else { 0int })
        + (if spec_corner_occ(g, f.1) { 1int } else { 0int })
}

/// How many of the two back corners of a T piece are occupied.
pub open spec fn spec_back_corner_count(g: Game) -> int {
    let b = spec_t_back_corners(g.current.rotation);
    (if spec_corner_occ(g, b.0) { 1int } else { 0int })
        + (if spec_corner_occ(g, b.1) { 1int } else { 0int })
}

/// Spin classification at lock time: (is_spin, is_mini).  Only a T piece
/// whose most recent action was a rotation can spin; at least three of the
/// four diagonal corners must be occupied; both front corners occupied
/// makes it a full spin, anything else a mini.
pub open spec fn spec_detect_tspin(g: Game) -> (bool, bool) {
    if g.current.kind != KIND_T || g.last_move != LastMove::Rotate {
        (false, false)
    } else {
        let total = spec_front_corner_count(g) + spec_back_corner_count(g);
        if total < 3 {
            (false, false)
        } else if spec_front_corner_count(g) == 2 {
            (true, false)
        } else {
            (true, true)
        }
    }
}

/// Spin classification is exactly: last action was a rotation of the T
/// piece and 3 or 4 of its corner cells are occupied; it is a full spin
/// when both front corners are occupied and a mini otherwise.
pub proof fn lemma_tspin_classification(g: Game)
    ensures
        spec_detect_tspin(g).0 <==> (g.current.kind == KIND_T && g.last_move == LastMove::Rotate
            && (spec_front_corner_count(g) + spec_back_corner_count(g) == 3
                || spec_front_corner_count(g) + spec_back_corner_count(g) == 4)),
        spec_detect_tspin(g).0 ==>
            (spec_detect_tspin(g).1 <==> spec_front_corner_count(g) != 2),
{
}

/// The board as it stands right after the active piece is written into it:
/// covered in-range cells take the piece's color id, the rest is unchanged.
pub open spec fn spec_locked_cell(pre: Game, r: int, c: int) -> u8 {
    if spec_piece_covers(pre.current, r, c) {
        (pre.current.kind + 1) as u8
    } else {
        pre.spec_cell(r, c)
    }
}

#[verifier::opaque]
pub open spec fn spec_locked_board(pre: Game) -> Seq<u8> {
    Seq::new(BOARD_CELLS as nat, |i: int|
        spec_locked_cell(pre, i / (BOARD_WIDTH as int), i % (BOARD_WIDTH as int)))
}

/// Base line points for one lock, before level and streak multipliers.
pub open spec fn spec_base_points(ts: bool, mini: bool, cleared: int) -> int {
    if ts {
        if mini {
            if cleared == 1 { 200 } else if cleared == 2 { 400 } else { 100 }
        } else {
            if cleared == 1 { 800 } else if cleared == 2 { 1200 }
            else if cleared == 3 { 1600 } else { 400 }
        }
    } else {
        if cleared == 1 { 100 } else if cleared == 2 { 300 }
        else if cleared == 3 { 500 } else if cleared == 4 { 800 } else { 0 }
    }
}

/// Base perfect-clear bonus, keyed by lines cleared and whether a difficult
/// clear extended an active back-to-back streak.
pub open spec fn spec_pc_base(cleared: int, b2b_active: bool) -> int {
    if cleared == 1 { 800 }
    else if cleared == 2 { 1200 }
    else if cleared == 3 { 1800 }
    else if cleared == 4 { if b2b_active { 3200 } else { 2000 } }
    else { 0 }
}

pub open spec fn spec_clamp_u32(x: int) -> u32 {
    if x > u32::MAX { u32::MAX } else { x as u32 }
}

pub open spec fn spec_sat_add_u32(a: u32, b: int) -> u32 {
    spec_clamp_u32(a + b)
}

pub open spec fn spec_bumped_combo(c: i32) -> i32 {
    if c < i32::MAX { (c + 1) as i32 } else { c }
}

/// The level after a clear: marathon and endless play advance one level per
/// ten cumulative lines from the start level, clamped by the optional cap
/// (a start level above the cap stays put); other modes never change level.
pub open spec fn spec_new_level(pre: Game, lines_after: u32) -> u32 {
    if pre.mode == GameMode::Marathon || pre.mode == GameMode::Endless {
        let grown = spec_clamp_u32(pre.start_level + lines_after / 10);
        match pre.level_cap {
            Some(cap) => if pre.start_level > cap {
                pre.start_level
            } else if grown > cap {
                cap
            } else {
                grown
            },
            None => grown,
        }
    } else {
        pre.level
    }
}

/// Whether clearing the listed full rows leaves the whole board empty.
#[verifier::opaque]
pub open spec fn spec_all_clear(locked: Seq<u8>) -> bool {
    forall |r: int| 0 <= r < BOARD_HEIGHT
        ==> board_full_rows(locked).contains(r as usize) || board_row_empty(locked, r)
}

/// The decimal digit characters of `n`, most significant first.
pub open spec fn spec_digit(d: nat) -> char {
    if d == 0 { '0' } else if d == 1 { '1' } else if d == 2 { '2' }
    else if d == 3 { '3' } else if d == 4 { '4' } else if d == 5 { '5' }
    else if d == 6 { '6' } else if d == 7 { '7' } else if d == 8 { '8' }
    else { '9' }
}

pub open spec fn spec_dec_digits(n: nat) -> Seq<char>
    decreases n,
{
    if n < 10 {
        seq![spec_digit(n)]
    } else {
        spec_dec_digits(n / 10) + seq![spec_digit(n % 10)]
    }
}

/// The announcement label for one clearing lock.
#[verifier::opaque]
pub open spec fn spec_clear_label(
    ts: bool, mini: bool, b2b: bool, cleared: int, all_clear: bool, combo: int,
) -> Seq<char> {
    (if b2b { "B2B "@ } else { Seq::<char>::empty() })
    + (if ts { if mini { "Mini T-Spin "@ } else { "T-Spin "@ } } else { Seq::<char>::empty() })
    + (if cleared == 1 { "Single"@ } else if cleared == 2 { "Double"@ }
       else if cleared == 3 { "Triple"@ } else if cleared == 4 { "Tetris"@ }
       else { Seq::<char>::empty() })
    + (if all_clear { " ALL CLEAR"@ } else { Seq::<char>::empty() })
    + (if combo > 0 { " Combo x"@ + spec_dec_digits(combo as nat) } else { Seq::<char>::empty() })
}

/// The announcement label for a spin lock that cleared nothing.
pub open spec fn spec_spin_label(mini: bool) -> Seq<char> {
    if mini { "Mini T-Spin"@ } else { "T-Spin"@ }
}

proof fn lemma_mul_nonneg(a: int, b: int)
    by (nonlinear_arith)
    requires
        a >= 0,
        b >= 0,
    ensures
        a * b >= 0,
{
}

proof fn lemma_mul_le(a: int, b: int, am: int, bm: int)
    by (nonlinear_arith)
    requires
        0 <= a <= am,
        0 <= b <= bm,
    ensures
        a * b <= am * bm,
{
}

/// Append the decimal digits of `n`.
fn append_dec(s: &mut String, n: u32)
    ensures
        final(s)@ == old(s)@ + spec_dec_digits(n as nat),
    decreases n,
{
    if n >= 10 {
        append_dec(s, n / 10);
    }
    let d = n % 10;
    if d == 0 { s.append("0"); proof { reveal_strlit("0"); assert("0"@ =~= seq!['0']); } }
    else if d == 1 { s.append("1"); proof { reveal_strlit("1"); assert("1"@ =~= seq!['1']); } }
    else if d == 2 { s.append("2"); proof { reveal_strlit("2"); assert("2"@ =~= seq!['2']); } }
    else if d == 3 { s.append("3"); proof { reveal_strlit("3"); assert("3"@ =~= seq!['3']); } }
    else if d == 4 { s.append("4"); proof { reveal_strlit("4"); assert("4"@ =~= seq!['4']); } }
    else if d == 5 { s.append("5"); proof { reveal_strlit("5"); assert("5"@ =~= seq!['5']); } }
    else if d == 6 { s.append("6"); proof { reveal_strlit("6"); assert("6"@ =~= seq!['6']); } }
    else if d == 7 { s.append("7"); proof { reveal_strlit("7"); assert("7"@ =~= seq!['7']); } }
    else if d == 8 { s.append("8"); proof { reveal_strlit("8"); assert("8"@ =~= seq!['8']); } }
    else { s.append("9"); proof { reveal_strlit("9"); assert("9"@ =~= seq!['9']); } }
    proof {
        if n < 10 {
            assert(spec_dec_digits(n as nat) =~= seq![spec_digit(n as nat)]);
            assert(final(s)@ =~= old(s)@ + spec_dec_digits(n as nat));
        } else {
            assert(final(s)@ =~= old(s)@ + spec_dec_digits(n as nat));
        }
    }
}

#[verifier::rlimit(50)]
fn build_clear_label(
    ts: bool, mini: bool, b2b: bool, cleared: u32, all_clear: bool, combo: i32,
) -> (s: String)
    ensures
        s@ == spec_clear_label(ts, mini, b2b, cleared as int, all_clear, combo as int),
{
    let mut s = String::new();
    if b2b {
        s.append("B2B ");
    }
    if ts {
        if mini {
            s.append("Mini T-Spin ");
        } else {
            s.append("T-Spin ");
        }
    }
    if cleared == 1 { s.append("Single"); }
    else if cleared == 2 { s.append("Double"); }
    else if cleared == 3 { s.append("Triple"); }
    else if cleared == 4 { s.append("Tetris"); }
    if all_clear {
        s.append(" ALL CLEAR");
    }
    if combo > 0 {
        s.append(" Combo x");
        append_dec(&mut s, combo as u32);
    }
    proof {
        reveal(spec_clear_label);
        assert(s@ =~= spec_clear_label(ts, mini, b2b, cleared as int, all_clear, combo as int));
    }
    s
}

/// The scalar consequences of one clearing lock: line and combo counters,
/// scoring with the back-to-back and perfect-clear bonuses, the recorded
/// clear action, level advance and goal completion.
/// Points granted by one clearing lock: line points with the back-to-back
/// bonus, combo points, and the perfect-clear bonus, all scaled by level.
#[verifier::opaque]
pub open spec fn spec_clear_gain(
    ts: bool, mini: bool, cleared: int, b2b_active: bool, combo_after: int, level: u32,
    all_clear: bool,
) -> int {
    let base = spec_base_points(ts, mini, cleared);
    let b2b_bonus = if b2b_active { base / 2 } else { 0 };
    let line_points = (base + b2b_bonus) * level;
    let combo_points = if combo_after > 0 { 50 * combo_after * level } else { 0 };
    let pc_bonus = if all_clear { spec_pc_base(cleared, b2b_active) * level } else { 0 };
    line_points + combo_points + pc_bonus
}

pub open spec fn spec_clear_scores(pre: Game, post: Game, now_ms: u64) -> bool {
    let spin = spec_detect_tspin(pre);
    let ts = spin.0;
    let mini = spin.1;
    let locked = spec_locked_board(pre);
    let rows = board_full_rows(locked);
    let cleared = rows.len() as int;
    let difficult = cleared == 4 || ts;
    let b2b_active = difficult && pre.back_to_back;
    let combo_after = spec_bumped_combo(pre.combo);
    let all_clear = spec_all_clear(locked);
    let gain = spec_clear_gain(ts, mini, cleared, b2b_active, combo_after as int, pre.level, all_clear);
    let lines_after = spec_sat_add_u32(pre.lines, cleared);
    &&& post.lines == lines_after
    &&& post.combo == combo_after
    &&& post.score == spec_sat_add_u32(pre.score, gain)
    &&& post.back_to_back == difficult
    &&& match post.last_action {
            Some(a) => {
                &&& a.cleared_lines == cleared
                &&& a.points == spec_clamp_u32(gain)
                &&& a.is_tspin == ts
                &&& a.is_mini == mini
                &&& a.is_back_to_back == b2b_active
                &&& a.combo == combo_after
                &&& a.is_all_clear == all_clear
                &&& a.label@ == spec_clear_label(ts, mini, b2b_active, cleared, all_clear, combo_after as int)
            },
            None => false,
        }
    &&& post.last_action_time == now_ms
    &&& post.level == spec_new_level(pre, lines_after)
    &&& post.cleared == (pre.cleared
            || (pre.mode == GameMode::Marathon && lines_after >= pre.marathon_goal)
            || (pre.mode == GameMode::Sprint && lines_after >= pre.sprint_goal))
}

/// What one clearing lock leaves on the board: either the flash animation
/// starts over the still-locked board, or the full rows are removed at once
/// and the post-lock grace timer starts.
pub open spec fn spec_clear_board_effect(pre: Game, post: Game, now_ms: u64) -> bool {
    let locked = spec_locked_board(pre);
    let rows = board_full_rows(locked);
    if pre.line_clear_anim_enabled {
        &&& post.board@ == locked
        &&& match post.line_clear_anim {
                Some(anim) => anim.rows@ == rows && anim.started_at == now_ms && anim.phase == 0,
                None => false,
            }
        &&& post.are_timer == pre.are_timer
    } else {
        let kept = kept_rows_upto(rows, BOARD_HEIGHT as int);
        let k = kept.len() as int;
        &&& post.board@.len() == BOARD_CELLS
        &&& forall |j: int, c: int| 0 <= j < k && 0 <= c < BOARD_WIDTH
            ==> #[trigger] board_cell(post.board@, BOARD_HEIGHT - k + j, c)
                == board_cell(locked, kept[j] as int, c)
        &&& forall |r: int, c: int| 0 <= r < BOARD_HEIGHT - k && 0 <= c < BOARD_WIDTH
            ==> board_cell(post.board@, r, c) == 0
        &&& post.line_clear_anim == pre.line_clear_anim
        &&& post.are_timer == Some(now_ms)
    }
}

/// Everything one lock event does to the session, as a relation between the
/// state just before the lock and the state after it.
pub open spec fn spec_lock_step(pre: Game, post: Game, now_ms: u64) -> bool {
    let spin = spec_detect_tspin(pre);
    let ts = spin.0;
    let mini = spin.1;
    let locked = spec_locked_board(pre);
    let rows = board_full_rows(locked);
    let cleared = rows.len() as int;
    if cleared > 0 {
        &&& spec_clear_scores(pre, post, now_ms)
        &&& spec_clear_board_effect(pre, post, now_ms)
        &&& post == (Game {
                board: post.board,
                lines: post.lines,
                combo: post.combo,
                score: post.score,
                back_to_back: post.back_to_back,
                last_action: post.last_action,
                last_action_time: post.last_action_time,
                level: post.level,
                cleared: post.cleared,
                line_clear_anim: post.line_clear_anim,
                are_timer: post.are_timer,
                ..pre
            })
    } else {
        &&& post.board@ == locked
        &&& post.combo == -1
        &&& post.are_timer == Some(now_ms)
        &&& if ts {
                let base: int = if mini { 100 } else { 400 };
                &&& post.score == spec_sat_add_u32(pre.score, base * pre.level)
                &&& match post.last_action {
                        Some(a) => {
                            &&& a.cleared_lines == 0
                            &&& a.points == spec_clamp_u32(base * pre.level)
                            &&& a.is_tspin
                            &&& a.is_mini == mini
                            &&& !a.is_back_to_back
                            &&& a.combo == -1
                            &&& !a.is_all_clear
                            &&& a.label@ == spec_spin_label(mini)
                        },
                        None => false,
                    }
                &&& post.last_action_time == now_ms
            } else {
                &&& post.score == pre.score
                &&& post.last_action == pre.last_action
                &&& post.last_action_time == pre.last_action_time
            }
        &&& post == (Game {
                board: post.board,
                combo: -1i32,
                score: post.score,
                last_action: post.last_action,
                last_action_time: post.last_action_time,
                are_timer: Some(now_ms),
                ..pre
            })
    }
}

/// Clearing exactly one row with the streak off and no running combo at
/// level 1 scores exactly one hundred points (saturating only at the score
/// type's ceiling) and starts the combo at zero.
pub proof fn lemma_single_clear_scoring(pre: Game, post: Game, now_ms: u64)
    requires
        spec_lock_step(pre, post, now_ms),
        pre.level == 1,
        pre.combo == -1,
        !pre.back_to_back,
        !spec_detect_tspin(pre).0,
        board_full_rows(spec_locked_board(pre)).len() == 1,
        !spec_all_clear(spec_locked_board(pre)),
    ensures
        post.score == spec_sat_add_u32(pre.score, 100),
        pre.score + 100 <= u32::MAX ==> post.score == pre.score + 100,
        post.combo == 0,
        pre.lines < u32::MAX ==> post.lines == pre.lines + 1,
        !post.back_to_back,
{
    reveal(spec_clear_gain);
}

/// A four-line clear with the back-to-back streak already active at level 1
/// earns the base eight hundred line points plus the four hundred streak
/// bonus — twelve hundred in all, on top of any combo and perfect-clear
/// terms — and leaves the streak active.
pub proof fn lemma_b2b_tetris_scoring(pre: Game, post: Game, now_ms: u64)
    requires
        spec_lock_step(pre, post, now_ms),
        pre.level == 1,
        pre.back_to_back,
        !spec_detect_tspin(pre).0,
        board_full_rows(spec_locked_board(pre)).len() == 4,
    ensures
        ({
            let combo_after = spec_bumped_combo(pre.combo);
            let combo_points = if combo_after > 0 { 50 * combo_after as int } else { 0 };
            let pc_bonus = if spec_all_clear(spec_locked_board(pre)) { 3200int } else { 0 };
            post.score == spec_sat_add_u32(pre.score, 1200 + combo_points + pc_bonus)
        }),
        post.back_to_back,
{
    reveal(spec_clear_gain);
}

impl Game {
    /// Spin classification for the active piece at lock time.
    pub fn detect_tspin(&self) -> (r: (bool, bool))
        requires
            self.wf(),
        ensures
            r == spec_detect_tspin(*self),
    {
        if self.current.kind != KIND_T || self.last_move != LastMove::Rotate {
            return (false, false);
        }

        let rot = self.current.rotation;
        let cr = self.current.row;
        let cc = self.current.col;

        let front = t_front_corners(rot);
        let back = t_back_corners(rot);

        let mut front_occupied: usize = 0;
        if self.is_occupied(cr + front.0.0, cc + front.0.1) {
            front_occupied += 1;
        }
        if self.is_occupied(cr + front.1.0, cc + front.1.1) {
            front_occupied += 1;
        }
        let mut back_occupied: usize = 0;
        if self.is_occupied(cr + back.0.0, cc + back.0.1) {
            back_occupied += 1;
        }
        if self.is_occupied(cr + back.1.0, cc + back.1.1) {
            back_occupied += 1;
        }

        let total = front_occupied + back_occupied;
        if total < 3 {
            return (false, false);
        }

        if front_occupied == 2 {
            (true, false)
        } else {
            (true, true)
        }
    }

    /// Write the active piece's color id into every board cell it covers;
    /// cells outside the grid are dropped.
    pub(crate) fn lock_current(&mut self)
        requires
            old(self).wf(),
        ensures
            final(self).wf(),
            final(self).board@ == spec_locked_board(*old(self)),
            *final(self) == (Game { board: final(self).board, ..*old(self) }),
    {
        let ghost pre = *self;
        proof {
            reveal(spec_locked_board);
        }
        let color_id = (self.current.kind + 1) as u8;
        let cells = self.current.cells();
        let c0 = cells[0];
        let c1 = cells[1];
        let c2 = cells[2];
        let c3 = cells[3];
        let mut nb: Vec<u8> = Vec::new();
        let mut idx: usize = 0;
        while idx < BOARD_CELLS
            invariant
                pre == *self,
                self.wf(),
                color_id == (pre.current.kind + 1) as u8,
                (c0.0 as int, c0.1 as int) == pre.current.spec_cell_at(0),
                (c1.0 as int, c1.1 as int) == pre.current.spec_cell_at(1),
                (c2.0 as int, c2.1 as int) == pre.current.spec_cell_at(2),
                (c3.0 as int, c3.1 as int) == pre.current.spec_cell_at(3),
                idx <= BOARD_CELLS,
                nb@.len() == idx,
                forall |i: int| 0 <= i < idx ==> #[trigger] nb@[i] == spec_locked_board(pre)[i],
            decreases BOARD_CELLS - idx,
        {
            let r = (idx / BOARD_WIDTH) as i32;
            let c = (idx % BOARD_WIDTH) as i32;
            let covered = (c0.0 == r && c0.1 == c)
                || (c1.0 == r && c1.1 == c)
                || (c2.0 == r && c2.1 == c)
                || (c3.0 == r && c3.1 == c);
            proof {
                reveal(spec_locked_board);
                if covered {
                    assert(spec_piece_covers(pre.current, r as int, c as int));
                } else {
                    assert forall |i: int| 0 <= i < 4
                        implies #[trigger] pre.current.spec_cell_at(i) != (r as int, c as int) by {
                        if i == 0 { assert(pre.current.spec_cell_at(0) != (r as int, c as int)); }
                        else if i == 1 { assert(pre.current.spec_cell_at(1) != (r as int, c as int)); }
                        else if i == 2 { assert(pre.current.spec_cell_at(2) != (r as int, c as int)); }
                        else { assert(pre.current.spec_cell_at(3) != (r as int, c as int)); }
                    }
                    assert(!spec_piece_covers(pre.current, r as int, c as int));
                }
            }
            if covered {
                nb.push(color_id);
            } else {
                nb.push(self.board[idx]);
            }
            proof {
                reveal(spec_locked_board);
                assert((idx as int) / (BOARD_WIDTH as int) == r as int && (idx as int) % (BOARD_WIDTH as int) == c as int);
                assert(nb@[idx as int] == spec_locked_board(pre)[idx as int]);
            }
            idx += 1;
        }
        self.board = nb;
        proof {
            reveal(spec_locked_board);
            assert(self.board@ =~= spec_locked_board(pre));
        }
    }

    /// Whether, with the listed rows cleared, the whole board is empty.
    fn check_all_clear(&self, full_rows: &Vec<usize>) -> (b: bool)
        requires
            self.wf(),
            full_rows@ == board_full_rows(self.board@),
        ensures
            b == spec_all_clear(self.board@),
    {
        proof {
            reveal(spec_all_clear);
        }
        let mut r: usize = 0;
        while r < BOARD_HEIGHT
            invariant
                self.wf(),
                full_rows@ == board_full_rows(self.board@),
                r <= BOARD_HEIGHT,
                forall |r2: int| 0 <= r2 < r
                    ==> board_full_rows(self.board@).contains(r2 as usize)
                        || board_row_empty(self.board@, r2),
            decreases BOARD_HEIGHT - r,
        {
            if !Self::row_listed(full_rows, r) && !self.row_empty(r) {
                proof {
                    reveal(spec_all_clear);
                }
                return false;
            }
            r += 1;
        }
        proof {
            reveal(spec_all_clear);
        }
        true
    }

    /// Lock the active piece into the board and resolve the consequences:
    /// spin detection, line clearing (immediate or deferred to the flash
    /// animation), scoring with combo, back-to-back and perfect-clear
    /// bonuses, level advance and goal completion.  Returns whether any
    /// lines cleared.
    /// The scalar half of one clearing lock: counters, score, streaks,
    /// the recorded action, level advance and goal completion.
    #[verifier::spinoff_prover]
    #[verifier::rlimit(100)]
    fn apply_clear_scores(
        &mut self,
        Ghost(pre): Ghost<Game>,
        is_tspin: bool,
        is_mini: bool,
        full_rows: &Vec<usize>,
        now_ms: u64,
    )
        requires
            old(self).wf(),
            pre.wf(),
            *old(self) == (Game { board: old(self).board, ..pre }),
            old(self).board@ == spec_locked_board(pre),
            (is_tspin, is_mini) == spec_detect_tspin(pre),
            full_rows@ == board_full_rows(old(self).board@),
            full_rows@.len() > 0,
            full_rows@.len() <= crate::piece::BOARD_HEIGHT,
        ensures
            final(self).wf(),
            spec_clear_scores(pre, *final(self), now_ms),
            *final(self) == (Game {
                lines: final(self).lines,
                combo: final(self).combo,
                score: final(self).score,
                back_to_back: final(self).back_to_back,
                last_action: final(self).last_action,
                last_action_time: final(self).last_action_time,
                level: final(self).level,
                cleared: final(self).cleared,
                ..*old(self)
            }),
    {
        let cleared_count = full_rows.len();
        let cleared = cleared_count as u32;
        self.lines = sat_add_u32(self.lines, cleared);
        if self.combo < i32::MAX {
            self.combo = self.combo + 1;
        }

        let difficult = cleared == 4 || is_tspin;
        let b2b_active = difficult && self.back_to_back;
        let all_clear = self.check_all_clear(full_rows);

        let gained = clear_gain(is_tspin, is_mini, cleared, b2b_active, self.combo, self.level, all_clear);
        self.score = sat_add_u32(self.score, gained);
        proof {
            lemma_clear_gain_nonneg(is_tspin, is_mini, cleared as int, b2b_active,
                self.combo as int, pre.level, all_clear);
            lemma_sat_add_clamp(pre.score, spec_clear_gain(is_tspin, is_mini, cleared as int,
                b2b_active, self.combo as int, pre.level, all_clear));
        }

        let label = build_clear_label(is_tspin, is_mini, b2b_active, cleared, all_clear, self.combo);
        self.last_action = Some(ClearAction {
            label,
            points: gained,
            cleared_lines: cleared,
            is_tspin,
            is_mini,
            is_back_to_back: b2b_active,
            combo: self.combo,
            is_all_clear: all_clear,
        });
        self.last_action_time = now_ms;

        self.back_to_back = difficult;

        if self.mode == GameMode::Marathon || self.mode == GameMode::Endless {
            let grown_wide: u64 = self.start_level as u64 + (self.lines / 10) as u64;
            let grown: u32 = if grown_wide > u32::MAX as u64 { u32::MAX } else { grown_wide as u32 };
            self.level = match self.level_cap {
                Some(cap) => {
                    if self.start_level > cap {
                        self.start_level
                    } else if grown > cap {
                        cap
                    } else {
                        grown
                    }
                }
                None => grown,
            };
        }

        if (self.mode == GameMode::Marathon && self.lines >= self.marathon_goal)
            || (self.mode == GameMode::Sprint && self.lines >= self.sprint_goal)
        {
            self.cleared = true;
        }
    }

    /// The board half of one clearing lock: start the flash animation, or
    /// remove the rows at once and arm the grace timer.
    #[verifier::rlimit(60)]
    fn apply_clear_board(
        &mut self,
        Ghost(pre): Ghost<Game>,
        full_rows: Vec<usize>,
        now_ms: u64,
    )
        requires
            old(self).wf(),
            old(self).line_clear_anim_enabled == pre.line_clear_anim_enabled,
            old(self).line_clear_anim == pre.line_clear_anim,
            old(self).are_timer == pre.are_timer,
            old(self).board@ == spec_locked_board(pre),
            full_rows@ == board_full_rows(old(self).board@),
            full_rows@.len() <= crate::piece::BOARD_HEIGHT,
        ensures
            final(self).wf(),
            spec_clear_board_effect(pre, *final(self), now_ms),
            *final(self) == (Game {
                board: final(self).board,
                line_clear_anim: final(self).line_clear_anim,
                are_timer: final(self).are_timer,
                ..*old(self)
            }),
    {
        if self.line_clear_anim_enabled {
            self.line_clear_anim = Some(LineClearAnimation::new(full_rows, now_ms));
        } else {
            let ghost before_remove = *self;
            proof {
                lemma_kept_rows_upto_props(full_rows@, BOARD_HEIGHT as int);
            }
            self.remove_rows(&full_rows);
            let ghost after_remove = *self;
            self.are_timer = Some(now_ms);
            proof {
                let locked = spec_locked_board(pre);
                let kept = kept_rows_upto(full_rows@, BOARD_HEIGHT as int);
                let k = kept.len() as int;
                assert(before_remove.board@ == locked);
                assert(self.board@ == after_remove.board@);
                assert forall |j: int, c: int| 0 <= j < k && 0 <= c < BOARD_WIDTH
                    implies #[trigger] board_cell(self.board@, BOARD_HEIGHT - k + j, c)
                        == board_cell(locked, kept[j] as int, c) by {
                    assert(after_remove.spec_cell(BOARD_HEIGHT - k + j, c)
                        == before_remove.spec_cell(kept[j] as int, c));
                }
                assert forall |r: int, c: int| 0 <= r < BOARD_HEIGHT - k && 0 <= c < BOARD_WIDTH
                    implies board_cell(self.board@, r, c) == 0 by {
                    assert(after_remove.spec_cell(r, c) == 0);
                }
            }
        }
    }

    pub fn lock_and_begin_clear(&mut self, now_ms: u64) -> (b: bool)
        requires
            old(self).wf(),
        ensures
            final(self).wf(),
            spec_lock_step(*old(self), *final(self), now_ms),
            b == (board_full_rows(spec_locked_board(*old(self))).len() > 0),
    {
        let ghost pre = *self;
        let spin = self.detect_tspin();
        let is_tspin = spin.0;
        let is_mini = spin.1;

        self.lock_current();
        let full_rows = self.find_full_rows();
        proof {
            lemma_board_full_rows_upto_props(self.board@, BOARD_HEIGHT as int);
        }
        let cleared_count = full_rows.len();

        if cleared_count > 0 {
            self.apply_clear_scores(Ghost(pre), is_tspin, is_mini, &full_rows, now_ms);
            self.apply_clear_board(Ghost(pre), full_rows, now_ms);
            true
        } else {
            self.combo = -1;

            if is_tspin {
                let base: u32 = if is_mini { 100 } else { 400 };
                proof {
                    lemma_mul_le(base as int, self.level as int, 400, 0xffff_ffff);
                }
                let points_wide: u64 = base as u64 * self.level as u64;
                let points: u32 = if points_wide > u32::MAX as u64 { u32::MAX } else { points_wide as u32 };
                self.score = sat_add_u32(self.score, points);
                let label = build_spin_label(is_mini);
                self.last_action = Some(ClearAction {
                    label,
                    points,
                    cleared_lines: 0,
                    is_tspin: true,
                    is_mini,
                    is_back_to_back: false,
                    combo: -1,
                    is_all_clear: false,
                });
                self.last_action_time = now_ms;
            }

            self.are_timer = Some(now_ms);
            false
        }
    }

    /// How one hard drop reworks the session: through some intermediate
    /// state in which the piece has fallen to the ground and scored two
    /// points a row, the lock step runs at once.
    #[verifier::opaque]
    pub open spec fn spec_hard_drop_step(pre: Game, post: Game, now_ms: u64, points: u32) -> bool {
        exists |mid: Game| {
            &&& #[trigger] spec_lock_step(mid, post, now_ms)
            &&& mid.wf()
            &&& mid.current.kind == pre.current.kind
            &&& mid.current.rotation == pre.current.rotation
            &&& mid.current.col == pre.current.col
            &&& mid.current.row >= pre.current.row
            &&& mid.spec_on_ground()
            &&& (forall |j: int| pre.current.row < j <= mid.current.row
                    ==> #[trigger] pre.spec_fits_at(j))
            &&& mid.board == pre.board
            &&& mid.score == spec_sat_add_u32(pre.score, 2 * (mid.current.row - pre.current.row))
            &&& mid.lock_delay.is_none()
            &&& points == 2 * (mid.current.row - pre.current.row)
            &&& (mid.current.row > pre.current.row ==> mid.last_move == LastMove::Move)
            &&& (mid.current.row == pre.current.row ==> mid.last_move == pre.last_move)
        }
    }

    /// Drop the piece straight to the floor, score two points per row
    /// descended, and lock it at once.
    pub fn hard_drop(&mut self, now_ms: u64) -> (points: u32)
        requires
            old(self).wf(),
        ensures
            final(self).wf(),
            Game::spec_hard_drop_step(*old(self), *final(self), now_ms, points),
    {
        let ghost start = *self;
        let mut cells_dropped: u32 = 0;
        while self.move_piece(1, 0, now_ms)
            invariant
                self.wf(),
                self.current.kind == start.current.kind,
                self.current.rotation == start.current.rotation,
                self.current.col == start.current.col,
                start.current.row <= self.current.row,
                self.current.row <= crate::piece::MAX_POS,
                cells_dropped == self.current.row - start.current.row,
                *self == (Game {
                    current: self.current,
                    lock_delay: self.lock_delay,
                    last_move: self.last_move,
                    move_reset_count: self.move_reset_count,
                    ..start
                }),
                forall |j: int| start.current.row < j <= self.current.row
                    ==> #[trigger] start.spec_fits_at(j),
                self.current.row > start.current.row ==> self.last_move == LastMove::Move,
                self.current.row == start.current.row
                    ==> self.last_move == start.last_move && self.lock_delay == start.lock_delay
                        && self.move_reset_count == start.move_reset_count,
            decreases crate::piece::MAX_POS + 2 - self.current.row,
        {
            cells_dropped += 1;
        }
        proof {
            crate::movement::lemma_blocked_is_grounded(*self);
        }
        let points_wide: u64 = cells_dropped as u64 * 2;
        let points: u32 = if points_wide > u32::MAX as u64 { u32::MAX } else { points_wide as u32 };
        self.score = sat_add_u32(self.score, points);
        self.lock_delay = None;
        let ghost mid = *self;
        self.lock_and_begin_clear(now_ms);
        proof {
            reveal(Game::spec_hard_drop_step);
            assert(spec_lock_step(mid, *self, now_ms));
        }
        points
    }
}

/// The clear gain is never negative.
proof fn lemma_clear_gain_nonneg(
    ts: bool, mini: bool, cleared: int, b2b_active: bool, combo_after: int, level: u32,
    all_clear: bool,
)
    ensures
        spec_clear_gain(ts, mini, cleared, b2b_active, combo_after, level, all_clear) >= 0,
{
    reveal(spec_clear_gain);
    let base = spec_base_points(ts, mini, cleared);
    let b2b_bonus = if b2b_active { base / 2 } else { 0 };
    lemma_mul_nonneg(base + b2b_bonus, level as int);
    if combo_after > 0 {
        lemma_mul_nonneg(50 * combo_after, level as int);
    }
    lemma_mul_nonneg(spec_pc_base(cleared, b2b_active), level as int);
}

/// Clamping the gain before adding it saturates to the same score as
/// clamping only once at the end.
proof fn lemma_sat_add_clamp(a: u32, x: int)
    requires
        x >= 0,
    ensures
        spec_sat_add_u32(a, spec_clamp_u32(x) as int) == spec_sat_add_u32(a, x),
{
}

/// Points granted by one clearing lock, clamped into the score range.
fn clear_gain(
    ts: bool, mini: bool, cleared: u32, b2b_active: bool, combo_after: i32, level: u32,
    all_clear: bool,
) -> (g: u32)
    ensures
        g == spec_clamp_u32(spec_clear_gain(ts, mini, cleared as int, b2b_active,
            combo_after as int, level, all_clear)),
{
    proof {
        reveal(spec_clear_gain);
    }
    let base = base_points(ts, mini, cleared);
    let b2b_bonus: u32 = if b2b_active { base / 2 } else { 0 };

    proof {
        lemma_mul_le(base as int + b2b_bonus as int, level as int, 2400, 0xffff_ffff);
    }
    let line_points: u64 = (base as u64 + b2b_bonus as u64) * (level as u64);
    let combo_points: u128 = if combo_after > 0 {
        let per_level: u64 = 50u64 * (combo_after as u64);
        proof {
            lemma_mul_le(per_level as int, level as int, (50 * 0x7fff_ffff) as int, 0xffff_ffff as int);
        }
        (per_level as u128) * (level as u128)
    } else {
        0
    };
    proof {
        lemma_mul_le(combo_points as int, 1, (50 * 0x7fff_ffff * 0xffff_ffff) as int, 1);
    }
    let pc_bonus: u64 = if all_clear {
        let pcb = pc_base(cleared, b2b_active);
        proof {
            lemma_mul_le(pcb as int, level as int, 3200, 0xffff_ffff);
        }
        pcb as u64 * (level as u64)
    } else {
        0
    };

    let total: u128 = line_points as u128 + combo_points + pc_bonus as u128;
    if total > u32::MAX as u128 {
        u32::MAX
    } else {
        total as u32
    }
}

/// Saturating add on scores and line counts.
pub fn sat_add_u32(a: u32, b: u32) -> (r: u32)
    ensures
        r == spec_sat_add_u32(a, b as int),
{
    if a > u32::MAX - b {
        u32::MAX
    } else {
        a + b
    }
}

fn base_points(ts: bool, mini: bool, cleared: u32) -> (p: u32)
    ensures
        p == spec_base_points(ts, mini, cleared as int),
        p <= 1600,
{
    if ts {
        if mini {
            if cleared == 1 { 200 } else if cleared == 2 { 400 } else { 100 }
        } else {
            if cleared == 1 { 800 } else if cleared == 2 { 1200 }
            else if cleared == 3 { 1600 } else { 400 }
        }
    } else {
        if cleared == 1 { 100 } else if cleared == 2 { 300 }
        else if cleared == 3 { 500 } else if cleared == 4 { 800 } else { 0 }
    }
}

fn pc_base(cleared: u32, b2b_active: bool) -> (p: u32)
    ensures
        p == spec_pc_base(cleared as int, b2b_active),
        p <= 3200,
{
    if cleared == 1 { 800 }
    else if cleared == 2 { 1200 }
    else if cleared == 3 { 1800 }
    else if cleared == 4 { if b2b_active { 3200 } else { 2000 } }
    else { 0 }
}

fn build_spin_label(mini: bool) -> (s: String)
    ensures
        s@ == spec_spin_label(mini),
{
    let mut s = String::new();
    if mini {
        s.append("Mini T-Spin");
    } else {
        s.append("T-Spin");
    }
    proof {
        assert(s@ =~= spec_spin_label(mini));
    }
    s
}

} // verus!
