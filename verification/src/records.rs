//! High-score tables: one top-ten list per solo mode, sorted best first.

use vstd::prelude::*;
use crate::types::GameMode;

verus! {

/// One finished attempt.
#[derive(Clone)]
pub struct ScoreRecord {
    pub score: u32,
    pub lines: u32,
    pub level: u32,
    pub time: Option<u64>,
    pub date: String,
}

/// The per-mode record lists.
pub struct Records {
    pub marathon: Vec<ScoreRecord>,
    pub sprint: Vec<ScoreRecord>,
    pub ultra: Vec<ScoreRecord>,
    pub endless: Vec<ScoreRecord>,
}

/// Where a score-ranked record lands: before the first entry it beats.
pub open spec fn spec_score_pos(list: Seq<ScoreRecord>, score: u32) -> int
    decreases list.len(),
{
    if list.len() == 0 {
        0
    } else if score > list[0].score {
        0
    } else {
        1 + spec_score_pos(list.drop_first(), score)
    }
}

/// Where a time-ranked record lands: before the first entry that is slower
/// (or has no time at all).
pub open spec fn spec_time_pos(list: Seq<ScoreRecord>, time: u64) -> int
    decreases list.len(),
{
    if list.len() == 0 {
        0
    } else if (match list[0].time { Some(t) => time < t, None => true }) {
        0
    } else {
        1 + spec_time_pos(list.drop_first(), time)
    }
}

/// A list with `record` ranked in at `pos`, cut back to the top ten.
pub open spec fn spec_ranked_in(list: Seq<ScoreRecord>, record: ScoreRecord, pos: int) -> Seq<ScoreRecord> {
    let grown = list.insert(pos, record);
    if grown.len() > 10 { grown.take(10) } else { grown }
}

impl Default for Records {
    fn default() -> (r: Records)
        ensures
            r.marathon@.len() == 0,
            r.sprint@.len() == 0,
            r.ultra@.len() == 0,
            r.endless@.len() == 0,
    {
        Records {
            marathon: Vec::new(),
            sprint: Vec::new(),
            ultra: Vec::new(),
            endless: Vec::new(),
        }
    }
}

/// Find the score-ranked position of `score` in `list`.
fn score_pos(list: &Vec<ScoreRecord>, score: u32) -> (pos: usize)
    ensures
        pos == spec_score_pos(list@, score),
        pos <= list@.len(),
{
    let mut i: usize = 0;
    proof {
        assert(list@.skip(0) =~= list@);
        lemma_score_pos_nonneg(list@, score);
    }
    while i < list.len()
        invariant
            i <= list@.len(),
            spec_score_pos(list@, score) == i + spec_score_pos(list@.skip(i as int), score),
            spec_score_pos(list@.skip(i as int), score) >= 0,
        decreases list@.len() - i,
    {
        proof {
            assert(list@.skip(i as int)[0] == list@[i as int]);
            assert(list@.skip(i as int).drop_first() =~= list@.skip(i as int + 1));
            lemma_score_pos_nonneg(list@.skip(i as int + 1), score);
        }
        if score > list[i].score {
            return i;
        }
        i += 1;
    }
    proof {
        assert(list@.skip(list@.len() as int) =~= Seq::<ScoreRecord>::empty());
    }
    i
}

/// Find the time-ranked position of `time` in `list`.
fn time_pos(list: &Vec<ScoreRecord>, time: u64) -> (pos: usize)
    ensures
        pos == spec_time_pos(list@, time),
        pos <= list@.len(),
{
    let mut i: usize = 0;
    proof {
        assert(list@.skip(0) =~= list@);
        lemma_time_pos_nonneg(list@, time);
    }
    while i < list.len()
        invariant
            i <= list@.len(),
            spec_time_pos(list@, time) == i + spec_time_pos(list@.skip(i as int), time),
            spec_time_pos(list@.skip(i as int), time) >= 0,
        decreases list@.len() - i,
    {
        proof {
            assert(list@.skip(i as int)[0] == list@[i as int]);
            assert(list@.skip(i as int).drop_first() =~= list@.skip(i as int + 1));
            lemma_time_pos_nonneg(list@.skip(i as int + 1), time);
        }
        let beats = match list[i].time {
            Some(t) => time < t,
            None => true,
        };
        if beats {
            return i;
        }
        i += 1;
    }
    proof {
        assert(list@.skip(list@.len() as int) =~= Seq::<ScoreRecord>::empty());
    }
    i
}

proof fn lemma_score_pos_nonneg(list: Seq<ScoreRecord>, score: u32)
    ensures
        spec_score_pos(list, score) >= 0,
    decreases list.len(),
{
    if list.len() > 0 && !(score > list[0].score) {
        lemma_score_pos_nonneg(list.drop_first(), score);
    }
}

proof fn lemma_time_pos_nonneg(list: Seq<ScoreRecord>, time: u64)
    ensures
        spec_time_pos(list, time) >= 0,
    decreases list.len(),
{
    if list.len() > 0 && !(match list[0].time { Some(t) => time < t, None => true }) {
        lemma_time_pos_nonneg(list.drop_first(), time);
    }
}

/// Rank `record` into `list` at `pos` and keep only the top ten.
fn rank_in(list: &mut Vec<ScoreRecord>, record: ScoreRecord, pos: usize)
    requires
        pos <= old(list)@.len(),
    ensures
        final(list)@ == spec_ranked_in(old(list)@, record, pos as int),
{
    list.insert(pos, record);
    if list.len() > 10 {
        list.truncate(10);
        proof {
            assert(list@ =~= spec_ranked_in(old(list)@, record, pos as int));
        }
    }
}

impl Records {
    /// File a finished attempt under its mode.  Sprint ranks by time (an
    /// attempt without one is not ranked); the other solo modes rank by
    /// score; versus play keeps no records.  An attempt that lands outside
    /// the top ten is dropped, everything else reports its rank.
    pub fn add(&mut self, mode: GameMode, record: ScoreRecord) -> (rank: Option<usize>)
        ensures
            mode == GameMode::Versus ==> rank.is_none() && *final(self) == *old(self),
            mode == GameMode::Sprint ==> (match record.time {
                None => rank.is_none() && *final(self) == *old(self),
                Some(t) => {
                    let pos = spec_time_pos(old(self).sprint@, t);
                    if pos >= 10 {
                        rank.is_none() && *final(self) == *old(self)
                    } else {
                        &&& rank == Some(pos as usize)
                        &&& final(self).sprint@ == spec_ranked_in(old(self).sprint@, record, pos)
                        &&& *final(self) == (Records { sprint: final(self).sprint, ..*old(self) })
                    }
                },
            }),
            (mode == GameMode::Marathon || mode == GameMode::Ultra || mode == GameMode::Endless)
                ==> ({
                    let list = match mode {
                        GameMode::Marathon => old(self).marathon@,
                        GameMode::Ultra => old(self).ultra@,
                        _ => old(self).endless@,
                    };
                    let pos = spec_score_pos(list, record.score);
                    if pos >= 10 {
                        rank.is_none() && *final(self) == *old(self)
                    } else {
                        &&& rank == Some(pos as usize)
                        &&& (match mode {
                                GameMode::Marathon => final(self).marathon@
                                        == spec_ranked_in(list, record, pos)
                                    && *final(self) == (Records {
                                        marathon: final(self).marathon, ..*old(self) }),
                                GameMode::Ultra => final(self).ultra@
                                        == spec_ranked_in(list, record, pos)
                                    && *final(self) == (Records {
                                        ultra: final(self).ultra, ..*old(self) }),
                                _ => final(self).endless@
                                        == spec_ranked_in(list, record, pos)
                                    && *final(self) == (Records {
                                        endless: final(self).endless, ..*old(self) }),
                            })
                    }
                }),
    {
        match mode {
            GameMode::Versus => None,
            GameMode::Sprint => {
                let t = match record.time {
                    Some(t) => t,
                    None => {
                        return None;
                    }
                };
                let pos = time_pos(&self.sprint, t);
                if pos >= 10 {
                    return None;
                }
                rank_in(&mut self.sprint, record, pos);
                Some(pos)
            }
            GameMode::Marathon => {
                let pos = score_pos(&self.marathon, record.score);
                if pos >= 10 {
                    return None;
                }
                rank_in(&mut self.marathon, record, pos);
                Some(pos)
            }
            GameMode::Ultra => {
                let pos = score_pos(&self.ultra, record.score);
                if pos >= 10 {
                    return None;
                }
                rank_in(&mut self.ultra, record, pos);
                Some(pos)
            }
            GameMode::Endless => {
                let pos = score_pos(&self.endless, record.score);
                if pos >= 10 {
                    return None;
                }
                rank_in(&mut self.endless, record, pos);
                Some(pos)
            }
        }
    }
}

} // verus!
