//! Scenario tests for the timing state machine, driven with explicit times.

use motion_wakeup::state::{PinLevel, PowerAction, TimingState};

#[test]
fn initial_state_is_off() {
    let st = TimingState::new();
    assert!(!st.display_on());
    assert_eq!(st.last_on, -1);
    assert_eq!(st.last_off, -1);
    assert_eq!(st.last_no_motion, -1);
}

#[test]
fn high_edge_powers_on() {
    let mut st = TimingState::new();
    let a = st.record_edge(PinLevel::High, 0);
    assert_eq!(a, Some(PowerAction::PowerOn));
    assert_eq!(st.last_on, 0);
    assert!(st.display_on());
}

#[test]
fn low_edge_requests_nothing() {
    let mut st = TimingState::new();
    st.record_edge(PinLevel::High, 0);
    let a = st.record_edge(PinLevel::Low, 3);
    assert_eq!(a, None);
    assert_eq!(st.last_no_motion, 3);
    assert!(st.display_on());
}

#[test]
fn idle_off_fires_at_first_poll_past_timeout() {
    // Timeout 30, a low edge at time 0 and no further edges: no power-off
    // attempt before time 30, a power-off at the first poll at or after 30.
    let mut st = TimingState::new();
    st.record_edge(PinLevel::High, 0);
    st.record_edge(PinLevel::Low, 0);
    let mut t: i64 = 1;
    while t < 30 {
        assert!(!st.idle_expired(t, 30));
        let a = st.try_power_off(PinLevel::Low, t, 30);
        assert_eq!(a, None);
        assert!(st.display_on());
        t += 1;
    }
    assert!(st.idle_expired(30, 30));
    let a = st.try_power_off(PinLevel::Low, 30, 30);
    assert_eq!(a, Some(PowerAction::PowerOff));
    assert_eq!(st.last_off, 30);
    assert!(!st.display_on());
}

#[test]
fn resumed_motion_blocks_power_off() {
    // Same setup, but a high edge arrives at time 29: the re-sample at the
    // poll at time 30 reads high, so no power-off happens, and last_on
    // reflects time 29.
    let mut st = TimingState::new();
    st.record_edge(PinLevel::High, 0);
    st.record_edge(PinLevel::Low, 0);
    let a = st.record_edge(PinLevel::High, 29);
    assert_eq!(a, Some(PowerAction::PowerOn));
    assert_eq!(st.last_on, 29);
    let a = st.try_power_off(PinLevel::High, 30, 30);
    assert_eq!(a, None);
    assert!(st.display_on());
    assert_eq!(st.last_on, 29);
}

#[test]
fn repeated_high_edges_each_power_on() {
    // Rapid high edges each request a power-on and refresh last_on, and no
    // poll between them powers off.
    let mut st = TimingState::new();
    let a = st.record_edge(PinLevel::High, 10);
    assert_eq!(a, Some(PowerAction::PowerOn));
    assert_eq!(st.last_on, 10);
    let a = st.try_power_off(PinLevel::Low, 10, 30);
    assert_eq!(a, None);
    let a = st.record_edge(PinLevel::High, 10);
    assert_eq!(a, Some(PowerAction::PowerOn));
    assert_eq!(st.last_on, 10);
    let a = st.try_power_off(PinLevel::Low, 11, 30);
    assert_eq!(a, None);
    let a = st.record_edge(PinLevel::High, 11);
    assert_eq!(a, Some(PowerAction::PowerOn));
    assert_eq!(st.last_on, 11);
    assert!(st.display_on());
}

#[test]
fn timestamps_never_decrease() {
    let mut st = TimingState::new();
    let mut prev = st;
    st.record_edge(PinLevel::High, 2);
    assert!(st.last_on >= prev.last_on);
    assert!(st.last_off >= prev.last_off);
    assert!(st.last_no_motion >= prev.last_no_motion);
    prev = st;
    st.record_edge(PinLevel::Low, 2);
    assert!(st.last_on >= prev.last_on);
    assert!(st.last_off >= prev.last_off);
    assert!(st.last_no_motion >= prev.last_no_motion);
    prev = st;
    st.try_power_off(PinLevel::Low, 40, 30);
    assert!(st.last_on >= prev.last_on);
    assert!(st.last_off >= prev.last_off);
    assert!(st.last_no_motion >= prev.last_no_motion);
    prev = st;
    st.record_edge(PinLevel::High, 41);
    assert!(st.last_on >= prev.last_on);
    assert!(st.last_off >= prev.last_off);
    assert!(st.last_no_motion >= prev.last_no_motion);
}

#[test]
fn derived_state_tracks_actions() {
    // At every observation point the derived power state matches the most
    // recent actuator call issued so far.
    let mut st = TimingState::new();
    let mut calls: Vec<PowerAction> = Vec::new();
    let mut record = |a: Option<PowerAction>, calls: &mut Vec<PowerAction>| {
        if let Some(act) = a {
            calls.push(act);
        }
    };
    let check = |st: &TimingState, calls: &Vec<PowerAction>| {
        let on = match calls.last() {
            Some(PowerAction::PowerOn) => true,
            Some(PowerAction::PowerOff) => false,
            None => false,
        };
        assert_eq!(st.display_on(), on);
    };
    let a = st.record_edge(PinLevel::High, 0);
    record(a, &mut calls);
    check(&st, &calls);
    let a = st.record_edge(PinLevel::Low, 1);
    record(a, &mut calls);
    check(&st, &calls);
    let a = st.try_power_off(PinLevel::Low, 7, 5);
    record(a, &mut calls);
    check(&st, &calls);
    let a = st.record_edge(PinLevel::High, 8);
    record(a, &mut calls);
    check(&st, &calls);
    let a = st.try_power_off(PinLevel::Low, 20, 5);
    record(a, &mut calls);
    check(&st, &calls);
    assert_eq!(
        calls,
        vec![
            PowerAction::PowerOn,
            PowerAction::PowerOff,
            PowerAction::PowerOn,
            PowerAction::PowerOff,
        ]
    );
}

#[test]
fn end_to_end_idle_timeout_five() {
    // Timeout 5; a high edge at time 0 and a low edge at time 1, polling
    // every second: the power-on call happens at time 0, no power-off before
    // time 6, and the power-off fires at the poll at time 6.
    let mut st = TimingState::new();
    let a = st.record_edge(PinLevel::High, 0);
    assert_eq!(a, Some(PowerAction::PowerOn));
    let a = st.record_edge(PinLevel::Low, 1);
    assert_eq!(a, None);
    let mut off_at: Option<i64> = None;
    let mut t: i64 = 1;
    while t <= 10 && off_at.is_none() {
        let a = st.try_power_off(PinLevel::Low, t, 5);
        if a == Some(PowerAction::PowerOff) {
            off_at = Some(t);
        }
        t += 1;
    }
    assert_eq!(off_at, Some(6));
    assert!(!st.display_on());
}
