use sven_desk::device::DeskCommand;
use sven_desk::device::SvenCommand;
use sven_desk::policy::check_after_probe;
use sven_desk::policy::check_before_probe;
use sven_desk::policy::in_window;
use sven_desk::policy::minutes_until_open;
use sven_desk::policy::PolicyConfig;
use sven_desk::policy::PreCheck;
use sven_desk::policy::ProbeCheck;

fn night_cfg() -> PolicyConfig {
    PolicyConfig {
        night_start_hour: 23,
        night_end_hour: 6,
        threshold_mm: 845,
        night_target_mm: 850,
    }
}

#[test]
fn window_wraps_past_midnight() {
    let cfg = night_cfg();
    assert!(in_window(&cfg, 23 * 60));
    assert!(in_window(&cfg, 23 * 60 + 30));
    assert!(in_window(&cfg, 0));
    assert!(in_window(&cfg, 2 * 60));
    assert!(in_window(&cfg, 5 * 60 + 59));
    assert!(!in_window(&cfg, 6 * 60));
    assert!(!in_window(&cfg, 14 * 60));
    assert!(!in_window(&cfg, 22 * 60 + 59));
}

#[test]
fn plain_window_does_not_wrap() {
    let cfg = PolicyConfig {
        night_start_hour: 1,
        night_end_hour: 5,
        threshold_mm: 845,
        night_target_mm: 850,
    };
    assert!(!in_window(&cfg, 0));
    assert!(in_window(&cfg, 60));
    assert!(in_window(&cfg, 4 * 60 + 59));
    assert!(!in_window(&cfg, 5 * 60));
    assert!(!in_window(&cfg, 23 * 60));
}

#[test]
fn already_in_position_fires_first() {
    // Inside the window with the probe reporting nobody, yet the desk is at
    // 850 mm with a threshold of 845 mm: no command may be emitted.
    let cfg = night_cfg();
    let r = check_before_probe(&cfg, 850, 23 * 60 + 30);
    assert_eq!(r, PreCheck::AlreadyInPosition);
}

#[test]
fn unknown_height_is_eligible() {
    // Height 0 means "never observed": it must not count as already
    // lowered, and at 02:00 with nobody present the trigger fires.
    let cfg = night_cfg();
    let r = check_before_probe(&cfg, 0, 2 * 60);
    assert_eq!(r, PreCheck::NeedProbe);
    let r2 = check_after_probe(&cfg, false);
    assert_eq!(
        r2,
        ProbeCheck::Trigger(DeskCommand {
            command: SvenCommand::AbsoluteHeight,
            value: 850,
        })
    );
}

#[test]
fn outside_window_sleeps_to_boundary() {
    // At 14:00 the window [23, 6) is nine hours away: the loop sleeps the
    // exact 540 minutes and emits nothing.
    let cfg = night_cfg();
    let r = check_before_probe(&cfg, 500, 14 * 60);
    assert_eq!(r, PreCheck::OutsideWindow { wait_minutes: 540 });
}

#[test]
fn presence_short_circuits() {
    // At 23:30 with the desk at 500 mm the cheap guards pass, but the probe
    // reports someone present: no command.
    let cfg = night_cfg();
    let r = check_before_probe(&cfg, 500, 23 * 60 + 30);
    assert_eq!(r, PreCheck::NeedProbe);
    let r2 = check_after_probe(&cfg, true);
    assert_eq!(r2, ProbeCheck::PresenceDetected);
}

#[test]
fn wait_lands_on_window_start() {
    let cfg = night_cfg();
    // One minute past the window's close, the wait spans the whole day
    // outside the window.
    assert_eq!(minutes_until_open(&cfg, 6 * 60), 17 * 60);
    // One minute before it opens.
    assert_eq!(minutes_until_open(&cfg, 23 * 60 - 1), 1);
    for m in [6 * 60u32, 12 * 60, 22 * 60 + 17] {
        let w = minutes_until_open(&cfg, m);
        assert_eq!((m + w) % 1440, 23 * 60);
    }
}

#[test]
fn threshold_boundary() {
    let cfg = night_cfg();
    // Exactly at the threshold counts as already in position.
    assert_eq!(check_before_probe(&cfg, 845, 2 * 60), PreCheck::AlreadyInPosition);
    // One below it does not.
    assert_eq!(check_before_probe(&cfg, 844, 2 * 60), PreCheck::NeedProbe);
}
