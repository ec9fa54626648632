//! Shared timing state and its transitions.
//!
//! Three timestamps are tracked for the process lifetime: the time of the most
//! recent power-on transition, of the most recent power-off transition, and of
//! the most recent observation of a low sensor level. The display's power
//! state is never stored as a separate boolean: it is derived, on every
//! observation, as `last_on > last_off`.

use vstd::prelude::*;

verus! {

/// The logic level reported by the motion sensor: `High` while motion is
/// present, `Low` while it is not.
#[derive(Clone, Copy, Debug, PartialEq, Eq, Structural)]
pub enum PinLevel {
    Low,
    High,
}

/// A side effect that the caller is asked to perform on the display after a
/// transition: power it on or power it off.
#[derive(Clone, Copy, Debug, PartialEq, Eq, Structural)]
pub enum PowerAction {
    PowerOn,
    PowerOff,
}

/// Sentinel timestamp meaning "never happened". Real timestamps are seconds
/// since the Unix epoch and are taken to be non-negative.
pub const NEVER: i64 = -1;

/// The shared timing state: three timestamps, in whole seconds since a fixed
/// epoch, each `NEVER` until the event it tracks first occurs.
#[derive(Clone, Copy, Debug, PartialEq, Eq, Structural)]
pub struct TimingState {
    /// Time of the most recent power-on transition.
    pub last_on: i64,
    /// Time of the most recent power-off transition.
    pub last_off: i64,
    /// Time of the most recent observation of a `Low` sensor level.
    pub last_no_motion: i64,
}

/// What a sensor edge does to the timing state: a rising edge records the
/// time of the power-on it triggers, a falling edge records the time at which
/// no motion was observed.
pub open spec fn edge_step(s: TimingState, level: PinLevel, now: i64) -> TimingState {
    match level {
        PinLevel::High => TimingState { last_on: now, ..s },
        PinLevel::Low => TimingState { last_no_motion: now, ..s },
    }
}

/// The side effect a sensor edge asks for: every rising edge requests a
/// power-on; a falling edge alone never requests anything (the power-off
/// decision belongs to the idle monitor).
pub open spec fn edge_action(level: PinLevel) -> Option<PowerAction> {
    match level {
        PinLevel::High => Some(PowerAction::PowerOn),
        PinLevel::Low => None,
    }
}

/// Whether the idle monitor should consider powering off at time `now`: the
/// display is on and at least `timeout` seconds have passed since the last
/// observation of no motion.
pub open spec fn idle_expired_spec(s: TimingState, now: i64, timeout: i64) -> bool {
    s.is_on() && now - s.last_no_motion >= timeout
}

/// Whether a poll at time `now` powers the display off: the idle timeout has
/// expired and the sensor level, re-sampled at decision time, still reads low.
pub open spec fn poll_fires(s: TimingState, now: i64, level: PinLevel, timeout: i64) -> bool {
    idle_expired_spec(s, now, timeout) && level is Low
}

/// What a poll at time `now` does to the timing state: records the power-off
/// time when it fires, and leaves the state untouched otherwise.
pub open spec fn poll_step(s: TimingState, now: i64, level: PinLevel, timeout: i64) -> TimingState {
    if poll_fires(s, now, level, timeout) {
        TimingState { last_off: now, ..s }
    } else {
        s
    }
}

/// The side effect a poll asks for: a power-off exactly when it fires.
pub open spec fn poll_action(s: TimingState, now: i64, level: PinLevel, timeout: i64) -> Option<
    PowerAction,
> {
    if poll_fires(s, now, level, timeout) {
        Some(PowerAction::PowerOff)
    } else {
        None
    }
}

impl TimingState {
    /// The state at process start: nothing has happened yet.
    pub open spec fn initial() -> TimingState {
        TimingState { last_on: NEVER, last_off: NEVER, last_no_motion: NEVER }
    }

    /// Derived display power state: on exactly when the most recent power-on
    /// is more recent than the most recent power-off.
    pub open spec fn is_on(self) -> bool {
        self.last_on > self.last_off
    }

    /// Creates the initial timing state, with all three timestamps at `NEVER`.
    pub fn new() -> (s: TimingState)
        ensures
            s == TimingState::initial(),
            !s.is_on(),
    {
        TimingState { last_on: NEVER, last_off: NEVER, last_no_motion: NEVER }
    }

    /// Computes the derived display power state.
    pub fn display_on(&self) -> (b: bool)
        ensures
            b == self.is_on(),
    {
        self.last_on > self.last_off
    }

    /// The edge handler's state transition, applied on every sensor level
    /// change at time `now`. A rising edge sets `last_on` and asks for an
    /// unconditional power-on; a falling edge sets `last_no_motion` and asks
    /// for nothing. Time only moves forward, so `now` is at least the
    /// timestamp being replaced; each timestamp is therefore non-decreasing.
    pub fn record_edge(&mut self, level: PinLevel, now: i64) -> (a: Option<PowerAction>)
        requires
            level is High ==> now >= old(self).last_on,
            level is Low ==> now >= old(self).last_no_motion,
        ensures
            *final(self) == edge_step(*old(self), level, now),
            a == edge_action(level),
            a != Some(PowerAction::PowerOff),
            final(self).last_on >= old(self).last_on,
            final(self).last_off == old(self).last_off,
            final(self).last_no_motion >= old(self).last_no_motion,
    {
        match level {
            PinLevel::High => {
                self.last_on = now;
                Some(PowerAction::PowerOn)
            },
            PinLevel::Low => {
                self.last_no_motion = now;
                None
            },
        }
    }

    /// The idle monitor's timeout check at time `now`: true exactly when the
    /// display is on and at least `timeout` seconds have passed since the
    /// last observation of no motion.
    pub fn idle_expired(&self, now: i64, timeout: i64) -> (b: bool)
        ensures
            b == idle_expired_spec(*self, now, timeout),
    {
        let on = self.last_on > self.last_off;
        on && (now as i128) - (self.last_no_motion as i128) >= (timeout as i128)
    }

    /// The idle monitor's power-off decision at time `now`, given the sensor
    /// level `resampled` read directly from the sensor at decision time. The
    /// display is powered off, and `last_off` recorded, exactly when the
    /// display is on, the idle timeout has expired, and the re-sample still
    /// reads low; in every other case the state is left untouched and no
    /// action is requested.
    pub fn try_power_off(&mut self, resampled: PinLevel, now: i64, timeout: i64) -> (a: Option<
        PowerAction,
    >)
        requires
            now >= old(self).last_off,
        ensures
            *final(self) == poll_step(*old(self), now, resampled, timeout),
            a == poll_action(*old(self), now, resampled, timeout),
            (a == Some(PowerAction::PowerOff)) <==> (old(self).is_on() && resampled is Low && now
                - old(self).last_no_motion >= timeout),
            a is None ==> *final(self) == *old(self),
            a is Some ==> final(self).last_off == now,
            a is Some && now >= old(self).last_on ==> !final(self).is_on(),
            final(self).last_off >= old(self).last_off,
            final(self).last_on == old(self).last_on,
            final(self).last_no_motion == old(self).last_no_motion,
    {
        if self.idle_expired(now, timeout) && resampled == PinLevel::Low {
            self.last_off = now;
            Some(PowerAction::PowerOff)
        } else {
            None
        }
    }
}

} // verus!
