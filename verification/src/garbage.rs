//! The garbage-attack economy: attack values computed from a clear result,
//! and the pending-attack queue with oldest-first cancellation.

use vstd::prelude::*;
use crate::types::ClearAction;

verus! {

/// One pending attack: how many garbage rows it will insert and which
/// column they leave open.
#[derive(Clone, Copy)]
pub struct GarbageEvent {
    pub lines: u32,
    pub hole_column: usize,
}

/// The pending attacks against one player, oldest first.
pub struct GarbageQueue {
    pub pending: Vec<GarbageEvent>,
}

/// Total lines pending in a queue view.
pub open spec fn spec_total_lines(events: Seq<GarbageEvent>) -> int
    decreases events.len(),
{
    if events.len() == 0 {
        0
    } else {
        events[0].lines + spec_total_lines(events.drop_first())
    }
}

pub proof fn lemma_total_lines_nonneg(events: Seq<GarbageEvent>)
    ensures
        spec_total_lines(events) >= 0,
    decreases events.len(),
{
    if events.len() > 0 {
        lemma_total_lines_nonneg(events.drop_first());
    }
}

/// What cancelling `amount` lines leaves of a queue: events are consumed
/// oldest first, the first partially covered event is reduced in place,
/// and the amount not absorbed is returned.
pub open spec fn spec_cancelled(events: Seq<GarbageEvent>, amount: int) -> (Seq<GarbageEvent>, int)
    decreases events.len(),
{
    if amount <= 0 || events.len() == 0 {
        (events, amount)
    } else if amount >= events[0].lines {
        spec_cancelled(events.drop_first(), amount - events[0].lines)
    } else {
        (seq![GarbageEvent {
            lines: (events[0].lines - amount) as u32,
            hole_column: events[0].hole_column,
        }] + events.drop_first(), 0)
    }
}

/// Cancellation bookkeeping balances exactly: what the queue loses plus
/// what is returned equals the incoming amount, capped by what was pending.
/// An attack no larger than the total pending is fully absorbed; a larger
/// one empties the queue and returns the excess.
pub proof fn lemma_cancel_conservation(events: Seq<GarbageEvent>, amount: int)
    requires
        amount >= 0,
    ensures
        ({
            let r = spec_cancelled(events, amount);
            &&& r.1 >= 0
            &&& spec_total_lines(r.0) >= 0
            &&& spec_total_lines(r.0) + (amount - r.1) == spec_total_lines(events)
            &&& amount <= spec_total_lines(events) ==> r.1 == 0
            &&& amount > spec_total_lines(events)
                    ==> r.1 == amount - spec_total_lines(events) && r.0.len() == 0
        }),
    decreases events.len(),
{
    lemma_total_lines_nonneg(events);
    if amount > 0 && events.len() > 0 {
        if amount >= events[0].lines {
            lemma_cancel_conservation(events.drop_first(), amount - events[0].lines);
        } else {
            let rest = events.drop_first();
            let reduced = GarbageEvent {
                lines: (events[0].lines - amount) as u32,
                hole_column: events[0].hole_column,
            };
            let out = seq![reduced] + rest;
            assert(out.drop_first() =~= rest);
            lemma_total_lines_nonneg(rest);
        }
    }
}

impl GarbageQueue {
    pub fn new() -> (q: GarbageQueue)
        ensures
            q.pending@.len() == 0,
    {
        GarbageQueue { pending: Vec::new() }
    }

    /// The total number of pending garbage lines, saturating at the
    /// integer limit.
    pub fn total_pending(&self) -> (t: u32)
        ensures
            t == (if spec_total_lines(self.pending@) > u32::MAX {
                u32::MAX as int
            } else {
                spec_total_lines(self.pending@)
            }),
    {
        let mut t: u32 = 0;
        let mut i: usize = 0;
        let mut saturated = false;
        proof {
            lemma_total_lines_nonneg(self.pending@);
            assert(self.pending@.skip(0) =~= self.pending@);
        }
        while i < self.pending.len()
            invariant
                i <= self.pending@.len(),
                !saturated ==> spec_total_lines(self.pending@)
                    == t + spec_total_lines(self.pending@.skip(i as int)),
                saturated ==> spec_total_lines(self.pending@) > u32::MAX,
                saturated ==> t == u32::MAX,
            decreases self.pending@.len() - i,
        {
            proof {
                assert(self.pending@.skip(i as int).drop_first() =~= self.pending@.skip(i as int + 1));
                lemma_total_lines_nonneg(self.pending@.skip(i as int + 1));
                assert(self.pending@.skip(i as int)[0] == self.pending@[i as int]);
            }
            let lines = self.pending[i].lines;
            if !saturated {
                if t > u32::MAX - lines {
                    saturated = true;
                    t = u32::MAX;
                } else {
                    t = t + lines;
                }
            }
            i += 1;
        }
        proof {
            assert(self.pending@.skip(self.pending@.len() as int) =~= Seq::<GarbageEvent>::empty());
        }
        if saturated {
            u32::MAX
        } else {
            t
        }
    }

    /// Append one attack to the queue.
    pub fn push(&mut self, event: GarbageEvent)
        ensures
            final(self).pending@ == old(self).pending@.push(event),
    {
        self.pending.push(event);
    }

    /// Cancel up to `attack` pending lines, consuming events oldest first
    /// and reducing the first event it only partly covers; the uncancelled
    /// remainder is returned to be sent onward.
    pub fn cancel(&mut self, attack: u32) -> (remaining: u32)
        ensures
            ({
                let r = spec_cancelled(old(self).pending@, attack as int);
                final(self).pending@ == r.0 && remaining == r.1
            }),
    {
        let mut attack = attack;
        let ghost attack0 = attack;
        while attack > 0 && self.pending.len() > 0
            invariant
                spec_cancelled(old(self).pending@, attack0 as int)
                    == spec_cancelled(self.pending@, attack as int),
            decreases self.pending@.len(), attack,
        {
            let ghost before = self.pending@;
            let front_lines = self.pending[0].lines;
            if attack >= front_lines {
                attack = attack - front_lines;
                let _ = self.pending.remove(0);
                proof {
                    assert(self.pending@ =~= before.drop_first());
                }
            } else {
                let hole = self.pending[0].hole_column;
                let reduced = GarbageEvent {
                    lines: front_lines - attack,
                    hole_column: hole,
                };
                self.pending.set(0, reduced);
                proof {
                    assert(self.pending@ =~= seq![reduced] + before.drop_first());
                }
                attack = 0;
            }
        }
        attack
    }

    /// Take every pending event out of the queue, in order.
    pub fn drain_all(&mut self) -> (events: Vec<GarbageEvent>)
        ensures
            events@ == old(self).pending@,
            final(self).pending@.len() == 0,
    {
        let mut out: Vec<GarbageEvent> = Vec::new();
        core::mem::swap(&mut out, &mut self.pending);
        out
    }
}

/// The combo bonus step table for attack values.
pub open spec fn spec_combo_bonus(combo: int) -> int {
    if combo <= 1 { 0 }
    else if combo <= 3 { 1 }
    else if combo <= 5 { 2 }
    else if combo <= 7 { 3 }
    else if combo <= 10 { 4 }
    else { 5 }
}

pub fn combo_bonus(combo: i32) -> (b: u32)
    ensures
        b == spec_combo_bonus(combo as int),
{
    if combo <= 1 { 0 }
    else if combo <= 3 { 1 }
    else if combo <= 5 { 2 }
    else if combo <= 7 { 3 }
    else if combo <= 10 { 4 }
    else { 5 }
}

/// Base attack lines for a clear, before the streak and combo bonuses.
pub open spec fn spec_attack_base(ts: bool, mini: bool, cleared: int) -> int {
    if ts {
        if mini {
            if cleared == 2 { 1 } else { 0 }
        } else {
            if cleared == 1 { 2 } else if cleared == 2 { 4 } else if cleared == 3 { 6 } else { 0 }
        }
    } else {
        if cleared == 2 { 1 } else if cleared == 3 { 2 } else if cleared == 4 { 4 } else { 0 }
    }
}

/// The attack value of one clear result: a pure function of its lines,
/// spin flags, back-to-back flag, combo count and all-clear flag.  No
/// lines sends nothing; a perfect clear sends a flat ten; anything else
/// sends the base value plus one for an extended back-to-back streak plus
/// the combo bonus.
pub open spec fn spec_attack(action: ClearAction) -> int {
    if action.cleared_lines == 0 {
        0
    } else if action.is_all_clear {
        10
    } else {
        spec_attack_base(action.is_tspin, action.is_mini, action.cleared_lines as int)
            + (if action.is_back_to_back { 1int } else { 0int })
            + spec_combo_bonus(action.combo as int)
    }
}

pub fn calculate_attack(action: &ClearAction) -> (lines: u32)
    ensures
        lines == spec_attack(*action),
{
    if action.cleared_lines == 0 {
        return 0;
    }

    if action.is_all_clear {
        return 10;
    }

    let base: u32 = if action.is_tspin {
        if action.is_mini {
            match action.cleared_lines {
                1 => 0,
                2 => 1,
                _ => 0,
            }
        } else {
            match action.cleared_lines {
                1 => 2,
                2 => 4,
                3 => 6,
                _ => 0,
            }
        }
    } else {
        match action.cleared_lines {
            1 => 0,
            2 => 1,
            3 => 2,
            4 => 4,
            _ => 0,
        }
    };

    let b2b: u32 = if action.is_back_to_back { 1 } else { 0 };
    let combo = combo_bonus(action.combo);

    base + b2b + combo
}

} // verus!
