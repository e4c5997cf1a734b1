//! Discrete sound-effect events the core emits; an outer layer maps them
//! to actual audio.

use vstd::prelude::*;
use crate::game::Game;
use crate::types::LastMove;
use crate::animation::spec_elapsed;

verus! {

/// Every sound cue of the game.
#[derive(Clone, Copy, PartialEq, Eq, Structural, Debug)]
pub enum Sfx {
    Move,
    Rotate,
    HardDrop,
    Hold,
    Lock,
    LineClear(u32),
    LevelUp,
    GameOver,
    MenuMove,
    MenuSelect,
    Pause,
    Resume,
    TSpinMini,
    TSpin,
    TSpinClear(u32),
    AllClear,
    Combo(u32),
    BackToBack,
    Clear,
    MenuBack,
    GarbageReceived,
    VersusWin,
    VersusLose,
}

/// How long after a lock its spin jingle may still fire, in milliseconds.
pub const SPIN_SFX_WINDOW_MS: u64 = 100;

/// The cues a lock event emits, in play order: the lock thud; for a
/// clearing lock its clear jingle with any combo, streak and all-clear
/// cues; for a bare spin lock the spin jingle; and a level-up cue when the
/// level rose.
pub open spec fn spec_clear_sfx(g: Game, prev_level: u32, now_ms: u64) -> Seq<Sfx> {
    seq![Sfx::Lock]
    + (match g.line_clear_anim {
        Some(anim) => match g.last_action {
            Some(a) => {
                let lines = anim.rows@.len() as u32;
                (if a.is_tspin { seq![Sfx::TSpinClear(lines)] } else { seq![Sfx::LineClear(lines)] })
                + (if a.combo > 0 { seq![Sfx::Combo(a.combo as u32)] } else { Seq::<Sfx>::empty() })
                + (if a.is_back_to_back { seq![Sfx::BackToBack] } else { Seq::<Sfx>::empty() })
                + (if a.is_all_clear { seq![Sfx::AllClear] } else { Seq::<Sfx>::empty() })
            },
            None => Seq::<Sfx>::empty(),
        },
        None => if !g.game_over {
            match g.last_action {
                Some(a) => if spec_elapsed(now_ms, g.last_action_time) < SPIN_SFX_WINDOW_MS && a.is_tspin {
                    if a.is_mini { seq![Sfx::TSpinMini] } else { seq![Sfx::TSpin] }
                } else {
                    Seq::<Sfx>::empty()
                },
                None => Seq::<Sfx>::empty(),
            }
        } else {
            Seq::<Sfx>::empty()
        },
    })
    + (if g.level > prev_level { seq![Sfx::LevelUp] } else { Seq::<Sfx>::empty() })
}

/// The cues to play right after a lock.
pub fn clear_sfx_events(g: &Game, prev_level: u32, now_ms: u64) -> (v: Vec<Sfx>)
    ensures
        v@ == spec_clear_sfx(*g, prev_level, now_ms),
{
    let mut v: Vec<Sfx> = Vec::new();
    v.push(Sfx::Lock);

    match &g.line_clear_anim {
        Some(anim) => {
            match &g.last_action {
                Some(a) => {
                    let lines = anim.rows.len() as u32;
                    if a.is_tspin {
                        v.push(Sfx::TSpinClear(lines));
                    } else {
                        v.push(Sfx::LineClear(lines));
                    }
                    if a.combo > 0 {
                        v.push(Sfx::Combo(a.combo as u32));
                    }
                    if a.is_back_to_back {
                        v.push(Sfx::BackToBack);
                    }
                    if a.is_all_clear {
                        v.push(Sfx::AllClear);
                    }
                }
                None => {}
            }
        }
        None => {
            if !g.game_over {
                match &g.last_action {
                    Some(a) => {
                        let since = if now_ms >= g.last_action_time {
                            now_ms - g.last_action_time
                        } else {
                            0
                        };
                        if since < SPIN_SFX_WINDOW_MS && a.is_tspin {
                            if a.is_mini {
                                v.push(Sfx::TSpinMini);
                            } else {
                                v.push(Sfx::TSpin);
                            }
                        }
                    }
                    None => {}
                }
            }
        }
    }

    if g.level > prev_level {
        v.push(Sfx::LevelUp);
    }
    proof {
        assert(v@ =~= spec_clear_sfx(*g, prev_level, now_ms));
    }
    v
}

/// The cues a successful move or rotation emits.
pub fn action_sfx(g: &Game, moved: bool) -> (s: Option<Sfx>)
    ensures
        s == (if moved {
            if g.last_move == LastMove::Rotate {
                Some(Sfx::Rotate)
            } else {
                Some(Sfx::Move)
            }
        } else {
            None::<Sfx>
        }),
{
    if moved {
        if g.last_move == LastMove::Rotate {
            Some(Sfx::Rotate)
        } else {
            Some(Sfx::Move)
        }
    } else {
        None
    }
}

} // verus!
