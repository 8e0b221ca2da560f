//! Decision logic of the night-mode policy loop.
//!
//! One cycle runs four ordered guards: already-in-position, outside the
//! night window, presence, and finally the trigger that emits one absolute
//! height command. The probe is a network call, so a cycle is split in two
//! decisions: one before the probe, which says whether the probe is needed at
//! all, and one after it. The caller performs the sleeps and the probe and
//! feeds the results back in.

use vstd::prelude::*;
use crate::device::DeskCommand;
use crate::device::SvenCommand;

verus! {

/// Minutes in a day.
pub const MINUTES_PER_DAY: u32 = 1440;

/// The fixed configuration the policy loop runs under.
#[derive(Clone, Copy, Debug, PartialEq, Eq, Structural)]
pub struct PolicyConfig {
    /// Hour of day at which the night window opens.
    pub night_start_hour: u32,
    /// Hour of day at which the night window closes (half-open).
    pub night_end_hour: u32,
    /// Height below which the desk is considered not yet in night position.
    pub threshold_mm: u32,
    /// Height the autonomous command asks for.
    pub night_target_mm: u32,
}

impl PolicyConfig {
    /// Both bounds are hours of a day and the window is not empty; a window
    /// of zero length would never open and would make the loop spin.
    pub open spec fn wf(&self) -> bool {
        &&& self.night_start_hour < 24
        &&& self.night_end_hour < 24
        &&& self.night_start_hour != self.night_end_hour
    }

    /// Minute of day at which the window opens.
    pub open spec fn start_minute(&self) -> u32 {
        (self.night_start_hour * 60) as u32
    }

    /// Minute of day at which the window closes.
    pub open spec fn end_minute(&self) -> u32 {
        (self.night_end_hour * 60) as u32
    }
}

/// Whether a minute of day falls inside the half-open night window, which may
/// wrap past midnight.
pub open spec fn spec_in_window(cfg: PolicyConfig, minute: u32) -> bool {
    if cfg.start_minute() < cfg.end_minute() {
        cfg.start_minute() <= minute < cfg.end_minute()
    } else {
        minute >= cfg.start_minute() || minute < cfg.end_minute()
    }
}

/// Whether the already-in-position guard fires: the height is known (nonzero)
/// and at least the threshold. An unknown height does not count as already
/// in position; it falls through to the later guards.
pub open spec fn spec_already_in_position(cfg: PolicyConfig, height_mm: u32) -> bool {
    height_mm != 0 && height_mm >= cfg.threshold_mm
}

/// Minutes from `minute` to the next opening of the window.
pub open spec fn spec_minutes_until_open(cfg: PolicyConfig, minute: u32) -> u32 {
    if minute < cfg.start_minute() {
        (cfg.start_minute() - minute) as u32
    } else {
        (cfg.start_minute() + MINUTES_PER_DAY - minute) as u32
    }
}

/// Whether a minute of day falls inside the half-open night window.
pub fn in_window(cfg: &PolicyConfig, minute: u32) -> (r: bool)
    requires
        cfg.wf(),
        minute < MINUTES_PER_DAY,
    ensures
        r == spec_in_window(*cfg, minute),
{
    let start: u32 = cfg.night_start_hour * 60;
    let end: u32 = cfg.night_end_hour * 60;
    if start < end {
        start <= minute && minute < end
    } else {
        minute >= start || minute < end
    }
}

/// What one policy cycle decides before the presence probe.
#[derive(Clone, Copy, Debug, PartialEq, Eq, Structural)]
pub enum PreCheck {
    /// The desk is already at or above the threshold: nothing to do this
    /// cycle; re-check after the short poll interval.
    AlreadyInPosition,
    /// The time of day is outside the night window: sleep exactly
    /// `wait_minutes` until the window next opens, then re-check.
    OutsideWindow { wait_minutes: u32 },
    /// Both cheap guards passed: probe for presence next.
    NeedProbe,
}

/// What one policy cycle decides once the probe has answered.
#[derive(Clone, Copy, Debug, PartialEq, Eq, Structural)]
pub enum ProbeCheck {
    /// Someone is near the desk: do not override them; re-check after the
    /// short poll interval.
    PresenceDetected,
    /// The desk is unattended, inside the window and below the threshold:
    /// emit this command, then re-check after the short poll interval.
    Trigger(DeskCommand),
}

/// The first half of a policy cycle: the two cheap guards, in order. The
/// probe is consulted only when `NeedProbe` comes back.
pub fn check_before_probe(cfg: &PolicyConfig, height_mm: u32, minute: u32) -> (r: PreCheck)
    requires
        cfg.wf(),
        minute < MINUTES_PER_DAY,
    ensures
        r is AlreadyInPosition <==> spec_already_in_position(*cfg, height_mm),
        r matches PreCheck::OutsideWindow { wait_minutes } ==> {
            &&& !spec_already_in_position(*cfg, height_mm)
            &&& !spec_in_window(*cfg, minute)
            &&& wait_minutes == spec_minutes_until_open(*cfg, minute)
        },
        r is OutsideWindow <==> !spec_already_in_position(*cfg, height_mm)
            && !spec_in_window(*cfg, minute),
        r is NeedProbe <==> !spec_already_in_position(*cfg, height_mm)
            && spec_in_window(*cfg, minute),
{
    if height_mm != 0 && height_mm >= cfg.threshold_mm {
        PreCheck::AlreadyInPosition
    } else if !in_window(cfg, minute) {
        PreCheck::OutsideWindow { wait_minutes: minutes_until_open(cfg, minute) }
    } else {
        PreCheck::NeedProbe
    }
}

/// The second half of a policy cycle: the presence guard, then the trigger.
/// Call it only when the first half answered `NeedProbe`.
pub fn check_after_probe(cfg: &PolicyConfig, present: bool) -> (r: ProbeCheck)
    ensures
        present <==> r is PresenceDetected,
        !present ==> r == ProbeCheck::Trigger(
            DeskCommand { command: SvenCommand::AbsoluteHeight, value: cfg.night_target_mm },
        ),
{
    if present {
        ProbeCheck::PresenceDetected
    } else {
        ProbeCheck::Trigger(
            DeskCommand { command: SvenCommand::AbsoluteHeight, value: cfg.night_target_mm },
        )
    }
}

/// Minutes from `minute` to the next opening of the window. Defined for
/// minutes outside the window, where the loop sleeps this long in one piece.
pub fn minutes_until_open(cfg: &PolicyConfig, minute: u32) -> (r: u32)
    requires
        cfg.wf(),
        minute < MINUTES_PER_DAY,
        !spec_in_window(*cfg, minute),
    ensures
        r == spec_minutes_until_open(*cfg, minute),
        1 <= r < MINUTES_PER_DAY,
{
    let start: u32 = cfg.night_start_hour * 60;
    if minute < start {
        start - minute
    } else {
        start + MINUTES_PER_DAY - minute
    }
}

/// The minute of day reached `k` minutes after `minute`.
pub open spec fn minute_after(minute: u32, k: int) -> u32 {
    ((minute + k) % (MINUTES_PER_DAY as int)) as u32
}

/// Sleeping for the computed duration wakes the loop exactly when the window
/// opens: the arrival minute is the window's start, no earlier minute of the
/// sleep is inside the window, and the arrival minute itself is inside it.
pub proof fn lemma_wait_is_exact(cfg: PolicyConfig, minute: u32)
    requires
        cfg.wf(),
        minute < MINUTES_PER_DAY,
        !spec_in_window(cfg, minute),
    ensures
        minute_after(minute, spec_minutes_until_open(cfg, minute) as int) == cfg.start_minute(),
        spec_in_window(cfg, minute_after(minute, spec_minutes_until_open(cfg, minute) as int)),
        forall|k: int| 0 <= k < spec_minutes_until_open(cfg, minute)
            ==> !spec_in_window(cfg, #[trigger] minute_after(minute, k)),
{
    let s = cfg.start_minute() as int;
    let e = cfg.end_minute() as int;
    let m = minute as int;
    let d = MINUTES_PER_DAY as int;
    let r = spec_minutes_until_open(cfg, minute) as int;
    assert((m + r) % d == s) by {
        if m < s {
            assert((m + (s - m)) % d == s);
        } else {
            assert(m + r == s + d);
            assert((s + d) % d == s) by {
                vstd::arithmetic::div_mod::lemma_mod_add_multiples_vanish(s, d);
            }
        }
    }
    assert forall|k: int| 0 <= k < r implies !spec_in_window(cfg, minute_after(minute, k)) by {
        let t = (m + k) % d;
        if m + k < d {
            assert(t == m + k);
        } else {
            assert(d <= m + k < 2 * d);
            assert(t == m + k - d) by {
                vstd::arithmetic::div_mod::lemma_mod_add_multiples_vanish(m + k - d, d);
            }
        }
        if s < e {
            // Plain window. Outside it, the minute is before the start or at
            // or past the end; either way every minute of the sleep stays
            // below the start or beyond the end until it wraps below the
            // start.
            if m < s {
                assert(t == m + k && t < s);
            } else {
                assert(m >= e);
                if m + k < d {
                    assert(t >= e);
                } else {
                    assert(t == m + k - d && t < s);
                }
            }
        } else {
            // Wrapping window: being outside means e <= m < s, and the sleep
            // stays inside [e, s).
            assert(e <= m < s);
            assert(t == m + k && t < s);
        }
    }
}

} // verus!
