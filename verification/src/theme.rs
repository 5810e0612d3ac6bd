//! The light/dark theme: the scheduled window of the light theme, and the
//! bookkeeping that keeps a stale theme change from setting the wallpaper.
use vstd::prelude::*;

use chrono::Timelike;

use crate::text::{owned, str_eq};
use crate::types::AppearanceConfig;

verus! {

/// A time of day as `chrono::NaiveTime` orders it: seconds since midnight,
/// then nanoseconds.
#[derive(Debug, Clone, Copy, PartialEq, Eq, Structural)]
pub struct DayTime {
    pub secs: u32,
    pub nanos: u32,
}

/// `a` comes strictly before `b`.
pub open spec fn before(a: DayTime, b: DayTime) -> bool {
    a.secs < b.secs || (a.secs == b.secs && a.nanos < b.nanos)
}

/// Whether `now` lies in the light window that starts at `light_time` and
/// ends at `dark_time`; a window whose start is not before its end runs
/// over midnight.
pub open spec fn in_light_window(now: DayTime, light_time: DayTime, dark_time: DayTime) -> bool {
    if before(light_time, dark_time) {
        !before(now, light_time) && before(now, dark_time)
    } else {
        !before(now, light_time) || before(now, dark_time)
    }
}

/// The light window starts at the light time and ends at the dark time: the
/// light time itself is in it, the dark time is not, and swapping the two
/// times gives exactly the other part of the day.
pub proof fn lemma_light_window_bounds(now: DayTime, light_time: DayTime, dark_time: DayTime)
    requires
        light_time != dark_time,
    ensures
        in_light_window(light_time, light_time, dark_time),
        !in_light_window(dark_time, light_time, dark_time),
        in_light_window(now, light_time, dark_time) == !in_light_window(now, dark_time, light_time),
{
}

fn earlier(a: DayTime, b: DayTime) -> (r: bool)
    ensures
        r == before(a, b),
{
    a.secs < b.secs || (a.secs == b.secs && a.nanos < b.nanos)
}

/// Decides whether the light theme is due at `now`.
pub fn is_time_in_light_window(now: DayTime, light_time: DayTime, dark_time: DayTime) -> (r: bool)
    ensures
        r == in_light_window(now, light_time, dark_time),
{
    if earlier(light_time, dark_time) {
        !earlier(now, light_time) && earlier(now, dark_time)
    } else {
        !earlier(now, light_time) || earlier(now, dark_time)
    }
}

/// The time of day that `NaiveTime::parse_from_str(s, "%H:%M")` reads from
/// `s`, as seconds since midnight and nanoseconds, or `None` where it fails.
pub uninterp spec fn hm_time(s: Seq<char>) -> Option<(u32, u32)>;

/// `chrono::NaiveTime::parse_from_str(s, "%H:%M")`, read back through
/// `Timelike::num_seconds_from_midnight` and `Timelike::nanosecond`. The
/// contract names the result; the parser's rules are chrono's.
#[verifier::external_body]
fn parse_hour_minute(s: &str) -> (r: Option<DayTime>)
    ensures
        match r {
            Some(t) => hm_time(s@) == Some((t.secs, t.nanos)),
            None => hm_time(s@) is None,
        },
{
    match chrono::NaiveTime::parse_from_str(s, "%H:%M") {
        Ok(t) => Some(DayTime { secs: t.num_seconds_from_midnight(), nanos: t.nanosecond() }),
        Err(_) => None,
    }
}

/// A parsed time of day.
pub open spec fn day_time(p: (u32, u32)) -> DayTime {
    DayTime { secs: p.0, nanos: p.1 }
}

/// What the scheduler does at `now`: nothing while the schedule is off,
/// either time does not parse, or the theme is already the due one;
/// otherwise switch to the due theme with that theme's wallpaper.
pub open spec fn scheduled_change(cfg: AppearanceConfig, now: DayTime, current_is_light: bool) -> Option<(bool, Seq<char>)> {
    if !cfg.schedule_enabled {
        None
    } else {
        match (hm_time(cfg.schedule_light_time@), hm_time(cfg.schedule_dark_time@)) {
            (Some(l), Some(d)) => {
                let target = in_light_window(now, day_time(l), day_time(d));
                if target == current_is_light {
                    None
                } else if target {
                    Some((true, cfg.wallpaper_light_path@))
                } else {
                    Some((false, cfg.wallpaper_dark_path@))
                }
            },
            _ => None,
        }
    }
}

/// Decides the scheduler's theme change at `now`.
pub fn scheduled_theme_change(cfg: &AppearanceConfig, now: DayTime, current_is_light: bool) -> (r: Option<(bool, String)>)
    ensures
        match r {
            Some(c) => scheduled_change(*cfg, now, current_is_light) == Some((c.0, c.1@)),
            None => scheduled_change(*cfg, now, current_is_light) is None,
        },
{
    if !cfg.schedule_enabled {
        return None;
    }
    let light = parse_hour_minute(cfg.schedule_light_time.as_str());
    let dark = parse_hour_minute(cfg.schedule_dark_time.as_str());
    match (light, dark) {
        (Some(l), Some(d)) => {
            let target = is_time_in_light_window(now, l, d);
            if target == current_is_light {
                None
            } else if target {
                Some((true, cfg.wallpaper_light_path.clone()))
            } else {
                Some((false, cfg.wallpaper_dark_path.clone()))
            }
        },
        _ => None,
    }
}

/// A scheduled switch goes to the other theme, the one the light window
/// calls for at `now`, and carries that theme's own wallpaper: the light
/// wallpaper with the light theme, the dark one with the dark theme. With
/// the schedule on and both times readable, a switch is made exactly when
/// the current theme is not the due one.
pub proof fn lemma_scheduled_switch(cfg: AppearanceConfig, now: DayTime, current_is_light: bool)
    ensures
        scheduled_change(cfg, now, current_is_light) matches Some(c) ==> {
            &&& cfg.schedule_enabled
            &&& hm_time(cfg.schedule_light_time@) is Some
            &&& hm_time(cfg.schedule_dark_time@) is Some
            &&& c.0 != current_is_light
            &&& c.0 == in_light_window(
                now,
                day_time(hm_time(cfg.schedule_light_time@)->0),
                day_time(hm_time(cfg.schedule_dark_time@)->0),
            )
            &&& c.0 ==> c.1 == cfg.wallpaper_light_path@
            &&& !c.0 ==> c.1 == cfg.wallpaper_dark_path@
        },
        cfg.schedule_enabled && hm_time(cfg.schedule_light_time@) is Some && hm_time(
            cfg.schedule_dark_time@,
        ) is Some ==> (scheduled_change(cfg, now, current_is_light) is Some <==> in_light_window(
            now,
            day_time(hm_time(cfg.schedule_light_time@)->0),
            day_time(hm_time(cfg.schedule_dark_time@)->0),
        ) != current_is_light),
        !cfg.schedule_enabled ==> scheduled_change(cfg, now, current_is_light) is None,
{
}

/// The check after writing the theme: the theme read back must be the one
/// written.
pub fn readback_check(requested_light: bool, effective_light: bool) -> (r: Result<bool, String>)
    ensures
        r is Ok <==> requested_light == effective_light,
        r matches Ok(v) ==> v == effective_light,
        r matches Err(m) ==> m@ == "Registry theme read-back verification failed"@,
{
    if effective_light != requested_light {
        Err(owned("Registry theme read-back verification failed"))
    } else {
        Ok(effective_light)
    }
}

/// Orders theme changes, so that only the latest one sets the wallpaper,
/// and keeps the scheduler from starting twice.
pub struct ThemeCoordinator {
    pub generation: u64,
    pub is_scheduler_running: bool,
}

impl ThemeCoordinator {
    /// No theme change made yet, no scheduler running.
    pub fn new() -> (c: Self)
        ensures
            c.generation == 0,
            !c.is_scheduler_running,
    {
        ThemeCoordinator { generation: 0, is_scheduler_running: false }
    }

    /// Starts a theme change and returns its generation, one past the last
    /// (wrapping as the atomic counter does).
    pub fn begin_change(&mut self) -> (g: u64)
        ensures
            g == (if old(self).generation == u64::MAX { 0 } else { old(self).generation + 1 }),
            final(self).generation == g,
            final(self).is_scheduler_running == old(self).is_scheduler_running,
    {
        self.generation = if self.generation == u64::MAX { 0 } else { self.generation + 1 };
        self.generation
    }

    /// The wallpaper a theme change of generation `g` sets: the path, when
    /// wallpapers are switched, a path is given and not empty, and no later
    /// change has begun.
    pub fn wallpaper_to_set(&self, g: u64, apply_wallpaper: bool, path: Option<String>) -> (r: Option<String>)
        ensures
            r is Some <==> apply_wallpaper && path is Some && path->0@.len() > 0 && self.generation == g,
            r is Some ==> r == path,
    {
        if apply_wallpaper {
            if let Some(p) = path {
                if p.as_str().unicode_len() > 0 && self.generation == g {
                    return Some(p);
                }
            }
        }
        None
    }

    /// Marks the scheduler as running; answers whether it already was.
    pub fn mark_scheduler_running(&mut self) -> (was_running: bool)
        ensures
            was_running == old(self).is_scheduler_running,
            final(self).is_scheduler_running,
            final(self).generation == old(self).generation,
    {
        let was = self.is_scheduler_running;
        self.is_scheduler_running = true;
        was
    }
}


/// The change that saving the appearance settings makes at once: `Light`
/// and `Dark` switch to that theme, with its wallpaper where wallpapers are
/// switched and a path is set; any other target waits for the system or the
/// schedule.
pub open spec fn manual_change(cfg: AppearanceConfig) -> Option<(bool, Option<Seq<char>>)> {
    if cfg.windows_theme_target@ == "Light"@ {
        Some((true, if cfg.switch_wallpaper && cfg.wallpaper_light_path@.len() > 0 { Some(cfg.wallpaper_light_path@) } else { None }))
    } else if cfg.windows_theme_target@ == "Dark"@ {
        Some((false, if cfg.switch_wallpaper && cfg.wallpaper_dark_path@.len() > 0 { Some(cfg.wallpaper_dark_path@) } else { None }))
    } else {
        None
    }
}

/// Saving the settings switches to the named theme with that theme's own
/// wallpaper, given only where wallpapers are switched and the path is set:
/// "Light" gives the light theme and light wallpaper, "Dark" the dark ones,
/// and any other target changes nothing at once.
pub proof fn lemma_manual_switch(cfg: AppearanceConfig)
    ensures
        manual_change(cfg) matches Some(c) ==> {
            let path = if c.0 { cfg.wallpaper_light_path@ } else { cfg.wallpaper_dark_path@ };
            &&& c.1 == if cfg.switch_wallpaper && path.len() > 0 { Some(path) } else { None }
        },
        cfg.windows_theme_target@ == "Light"@ ==> (manual_change(cfg) matches Some(c) && c.0),
        cfg.windows_theme_target@ == "Dark"@ ==> (manual_change(cfg) matches Some(c) && !c.0),
        cfg.windows_theme_target@ != "Light"@ && cfg.windows_theme_target@ != "Dark"@ ==> manual_change(cfg) is None,
{
    reveal_strlit("Light");
    reveal_strlit("Dark");
    assert("Light"@ != "Dark"@) by {
        assert("Light"@.len() != "Dark"@.len());
    }
}

/// Decides the theme change that saving the appearance settings makes.
pub fn manual_theme_change(cfg: &AppearanceConfig) -> (r: Option<(bool, Option<String>)>)
    ensures
        match r {
            Some(c) => manual_change(*cfg) == Some((c.0, match c.1 {
                Some(p) => Some(p@),
                None => None,
            })),
            None => manual_change(*cfg) is None,
        },
{
    if str_eq(cfg.windows_theme_target.as_str(), "Light") {
        let wp = if cfg.switch_wallpaper && cfg.wallpaper_light_path.as_str().unicode_len() > 0 {
            Some(cfg.wallpaper_light_path.clone())
        } else {
            None
        };
        Some((true, wp))
    } else if str_eq(cfg.windows_theme_target.as_str(), "Dark") {
        let wp = if cfg.switch_wallpaper && cfg.wallpaper_dark_path.as_str().unicode_len() > 0 {
            Some(cfg.wallpaper_dark_path.clone())
        } else {
            None
        };
        Some((false, wp))
    } else {
        None
    }
}

} // verus!
