//! Tests for the clock-reading controller. These run against the real wall
//! clock, so they only rely on it moving forward and standing well past the
//! epoch; the timeouts are chosen so large that no second boundary crossed
//! during the test can change an outcome.

use motion_wakeup::controller::Controller;
use motion_wakeup::state::{PinLevel, PowerAction};

#[test]
fn controller_starts_off() {
    let c = Controller::new(3600);
    assert_eq!(c.timeout_seconds(), 3600);
    assert!(!c.display_on());
}

#[test]
fn edge_then_idle_cycle() {
    let mut c = Controller::new(3600);

    // A rising edge powers the display on.
    let a = c.on_edge(PinLevel::High);
    assert_eq!(a, Some(PowerAction::PowerOn));
    assert!(c.display_on());

    // No low level has ever been observed, so the idle window (counted from
    // the "never" sentinel) is long past: the monitor wants a re-sample.
    assert!(c.idle_elapsed());

    // The re-sample reads high: no power-off.
    let a = c.confirm_power_off(PinLevel::High);
    assert_eq!(a, None);
    assert!(c.display_on());

    // The re-sample reads low: power-off fires.
    let a = c.confirm_power_off(PinLevel::Low);
    assert_eq!(a, Some(PowerAction::PowerOff));
    assert!(!c.display_on());

    // Once the display is off, the monitor never asks again.
    assert!(!c.idle_elapsed());
    let a = c.confirm_power_off(PinLevel::Low);
    assert_eq!(a, None);
}

#[test]
fn fresh_low_edge_blocks_power_off() {
    let mut c = Controller::new(3600);
    let a = c.on_edge(PinLevel::High);
    assert_eq!(a, Some(PowerAction::PowerOn));

    // A falling edge right now: far less than an hour of idle has passed.
    let a = c.on_edge(PinLevel::Low);
    assert_eq!(a, None);
    assert!(c.display_on());
    assert!(!c.idle_elapsed());
    let a = c.confirm_power_off(PinLevel::Low);
    assert_eq!(a, None);
    assert!(c.display_on());
}
