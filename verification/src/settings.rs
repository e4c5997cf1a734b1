//! Configuration values the engine consumes, and the subset a versus host
//! shares with the joining side.

use vstd::prelude::*;
use crate::piece::MAX_NEXT_COUNT;
use crate::types::GameMode;

verus! {

/// Match configuration.  The engine does not validate combinations; the
/// ranges below are what the menus keep the values in.
#[derive(Clone, Copy)]
pub struct Settings {
    pub level: u32,
    pub marathon_goal: u32,
    pub sprint_goal: u32,
    pub ultra_time: u32,
    pub level_cap: Option<u32>,
    pub ghost_enabled: bool,
    pub line_clear_anim: bool,
    pub next_count: usize,
    pub bag_randomizer: bool,
    pub srs: bool,
    pub hold_enabled: bool,
    pub lock_delay_ms: u32,
    pub move_reset: Option<u32>,
}

impl Settings {
    /// The ranges the settings menu keeps each value in.
    pub open spec fn in_menu_ranges(self) -> bool {
        1 <= self.level <= 20
        && 10 <= self.marathon_goal <= 300
        && 10 <= self.sprint_goal <= 100
        && 30 <= self.ultra_time <= 300
        && (match self.level_cap { Some(c) => 1 <= c <= 20, None => true })
        && self.next_count <= MAX_NEXT_COUNT
        && self.lock_delay_ms <= 2000
        && (match self.move_reset { Some(n) => n <= 30, None => true })
    }
}

impl Default for Settings {
    fn default() -> (s: Settings)
        ensures
            s.level == 1,
            s.marathon_goal == 150,
            s.sprint_goal == 40,
            s.ultra_time == 120,
            s.level_cap == Some(15u32),
            s.ghost_enabled,
            s.line_clear_anim,
            s.next_count == MAX_NEXT_COUNT,
            s.bag_randomizer,
            s.srs,
            s.hold_enabled,
            s.lock_delay_ms == 500,
            s.move_reset == Some(15u32),
            s.in_menu_ranges(),
    {
        Settings {
            level: 1,
            marathon_goal: 150,
            sprint_goal: 40,
            ultra_time: 120,
            level_cap: Some(15),
            ghost_enabled: true,
            line_clear_anim: true,
            next_count: MAX_NEXT_COUNT,
            bag_randomizer: true,
            srs: true,
            hold_enabled: true,
            lock_delay_ms: 500,
            move_reset: Some(15),
        }
    }
}

/// The host-authoritative configuration sent to the joining side of a
/// versus match.
#[derive(Clone, Copy)]
pub struct VersusSettings {
    pub level: u32,
    pub ghost_enabled: bool,
    pub line_clear_anim: bool,
    pub next_count: usize,
    pub bag_randomizer: bool,
    pub srs: bool,
    pub hold_enabled: bool,
    pub lock_delay_ms: u32,
    pub move_reset: Option<u32>,
}

impl Default for VersusSettings {
    fn default() -> (s: VersusSettings)
        ensures
            s.level == 1,
            s.ghost_enabled,
            s.line_clear_anim,
            s.next_count == MAX_NEXT_COUNT,
            s.bag_randomizer,
            s.srs,
            s.hold_enabled,
            s.lock_delay_ms == 500,
            s.move_reset == Some(15u32),
    {
        VersusSettings {
            level: 1,
            ghost_enabled: true,
            line_clear_anim: true,
            next_count: MAX_NEXT_COUNT,
            bag_randomizer: true,
            srs: true,
            hold_enabled: true,
            lock_delay_ms: 500,
            move_reset: Some(15),
        }
    }
}

impl VersusSettings {
    /// Expand the shared versus configuration into full engine settings: the
    /// solo goals are unused, and the level is capped at the start level.
    pub fn to_settings(self) -> (s: Settings)
        ensures
            s.level == self.level,
            s.marathon_goal == 0,
            s.sprint_goal == 0,
            s.ultra_time == 0,
            s.level_cap == Some(self.level),
            s.ghost_enabled == self.ghost_enabled,
            s.line_clear_anim == self.line_clear_anim,
            s.next_count == self.next_count,
            s.bag_randomizer == self.bag_randomizer,
            s.srs == self.srs,
            s.hold_enabled == self.hold_enabled,
            s.lock_delay_ms == self.lock_delay_ms,
            s.move_reset == self.move_reset,
    {
        Settings {
            level: self.level,
            marathon_goal: 0,
            sprint_goal: 0,
            ultra_time: 0,
            level_cap: Some(self.level),
            ghost_enabled: self.ghost_enabled,
            line_clear_anim: self.line_clear_anim,
            next_count: self.next_count,
            bag_randomizer: self.bag_randomizer,
            srs: self.srs,
            hold_enabled: self.hold_enabled,
            lock_delay_ms: self.lock_delay_ms,
            move_reset: self.move_reset,
        }
    }

    /// The subset of full settings a host shares with its peer.
    pub fn from_settings(s: &Settings) -> (v: VersusSettings)
        ensures
            v.level == s.level,
            v.ghost_enabled == s.ghost_enabled,
            v.line_clear_anim == s.line_clear_anim,
            v.next_count == s.next_count,
            v.bag_randomizer == s.bag_randomizer,
            v.srs == s.srs,
            v.hold_enabled == s.hold_enabled,
            v.lock_delay_ms == s.lock_delay_ms,
            v.move_reset == s.move_reset,
    {
        VersusSettings {
            level: s.level,
            ghost_enabled: s.ghost_enabled,
            line_clear_anim: s.line_clear_anim,
            next_count: s.next_count,
            bag_randomizer: s.bag_randomizer,
            srs: s.srs,
            hold_enabled: s.hold_enabled,
            lock_delay_ms: s.lock_delay_ms,
            move_reset: s.move_reset,
        }
    }
}

/// Step the level cap: it climbs to 20 and then comes off entirely; coming
/// down from "no cap" starts again at 20.
pub fn adjust_level_cap(settings: &mut Settings, direction: i32)
    ensures
        final(settings).level_cap == (match (old(settings).level_cap, direction) {
            (Some(c), 1) => if c >= 20 { None } else { Some((c + 1) as u32) },
            (Some(c), -1) => if c <= 1 { Some(1u32) } else { Some((c - 1) as u32) },
            (None, -1) => Some(20u32),
            (cap, _) => cap,
        }),
        *final(settings) == (Settings { level_cap: final(settings).level_cap, ..*old(settings) }),
{
    if direction == 1 {
        match settings.level_cap {
            Some(c) => {
                if c >= 20 {
                    settings.level_cap = None;
                } else {
                    settings.level_cap = Some(c + 1);
                }
            }
            None => {}
        }
    } else if direction == -1 {
        match settings.level_cap {
            Some(c) => {
                if c <= 1 {
                    settings.level_cap = Some(1);
                } else {
                    settings.level_cap = Some(c - 1);
                }
            }
            None => {
                settings.level_cap = Some(20);
            }
        }
    }
}

/// How many mode-specific rows the settings menu shows before the shared
/// rows begin.
pub fn mode_setting_rows(mode: GameMode) -> (n: usize)
    ensures
        n == (match mode {
            GameMode::Marathon => 3usize,
            GameMode::Endless => 2usize,
            _ => 1usize,
        }),
{
    match mode {
        GameMode::Marathon => 3,
        GameMode::Endless => 2,
        GameMode::Sprint => 1,
        GameMode::Ultra => 1,
        GameMode::Versus => 1,
    }
}

/// Apply one left/right step to the selected settings row.  Every value
/// stays inside its menu range, and only the selected row changes.
pub fn adjust_setting(settings: &mut Settings, sel: usize, direction: i32, mode: GameMode)
    requires
        old(settings).in_menu_ranges(),
        direction == 1 || direction == -1,
    ensures
        final(settings).in_menu_ranges(),
{
    let mc = mode_setting_rows(mode);

    if sel < mc {
        match mode {
            GameMode::Marathon => {
                if sel == 0 {
                    let v = settings.level as i32 + direction;
                    settings.level = if v < 1 { 1 } else if v > 20 { 20 } else { v as u32 };
                } else if sel == 1 {
                    let v = settings.marathon_goal as i32 + direction * 10;
                    settings.marathon_goal = if v < 10 { 10 } else if v > 300 { 300 } else { v as u32 };
                } else {
                    adjust_level_cap(settings, direction);
                }
            }
            GameMode::Endless => {
                if sel == 0 {
                    let v = settings.level as i32 + direction;
                    settings.level = if v < 1 { 1 } else if v > 20 { 20 } else { v as u32 };
                } else {
                    adjust_level_cap(settings, direction);
                }
            }
            GameMode::Sprint => {
                let v = settings.sprint_goal as i32 + direction * 10;
                settings.sprint_goal = if v < 10 { 10 } else if v > 100 { 100 } else { v as u32 };
            }
            GameMode::Ultra => {
                let v = settings.ultra_time as i32 + direction * 10;
                settings.ultra_time = if v < 30 { 30 } else if v > 300 { 300 } else { v as u32 };
            }
            GameMode::Versus => {
                let v = settings.level as i32 + direction;
                settings.level = if v < 1 { 1 } else if v > 20 { 20 } else { v as u32 };
            }
        }
    } else if sel == mc {
        let v = settings.next_count as i32 + direction;
        settings.next_count = if v < 0 { 0 } else if v > MAX_NEXT_COUNT as i32 { MAX_NEXT_COUNT } else { v as usize };
    } else if sel == mc + 1 {
        let v = settings.lock_delay_ms as i32 + direction * 100;
        settings.lock_delay_ms = if v < 0 { 0 } else if v > 2000 { 2000 } else { v as u32 };
    } else if sel == mc + 2 {
        match settings.move_reset {
            Some(n) => {
                if direction == 1 {
                    if n >= 30 {
                        settings.move_reset = None;
                    } else {
                        settings.move_reset = Some(n + 1);
                    }
                } else if n > 0 {
                    settings.move_reset = Some(n - 1);
                }
            }
            None => {
                if direction == -1 {
                    settings.move_reset = Some(30);
                }
            }
        }
    } else if sel == mc + 3 {
        settings.ghost_enabled = !settings.ghost_enabled;
    } else if sel == mc + 4 {
        settings.line_clear_anim = !settings.line_clear_anim;
    } else if sel == mc + 5 {
        settings.bag_randomizer = !settings.bag_randomizer;
    } else if sel == mc + 6 {
        settings.srs = !settings.srs;
    } else if sel == mc + 7 {
        settings.hold_enabled = !settings.hold_enabled;
    }
}

} // verus!
