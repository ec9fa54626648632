//! The motion controller: the shared timing state paired with the configured
//! idle timeout, with transitions that read the wall clock themselves.
//!
//! The clock is an external collaborator, so nothing can be assumed about the
//! value it returns; each reading is clamped so that a timestamp already
//! recorded is never moved backwards. Every contract here states what holds
//! whatever the clock returned, and the exact transition semantics live in
//! [`crate::state`], whose functions take the time as an argument.

use vstd::prelude::*;

use crate::state::PinLevel;
use crate::state::PowerAction;
use crate::state::TimingState;

verus! {

/// Reads the current time as whole seconds since the Unix epoch.
///
/// Relies on `chrono::Local::now` and `chrono::DateTime::timestamp`: the
/// result is the wall clock's notion of the current second, and depends on
/// nothing but the clock, of which nothing can be promised.
#[verifier::external_body]
fn now_seconds() -> i64 {
    chrono::Local::now().timestamp()
}

/// The motion-to-power controller: the shared timing state together with the
/// idle timeout the process was configured with. The timeout is immutable for
/// the controller's lifetime.
pub struct Controller {
    /// The shared timing state, read and written by both the edge handler and
    /// the idle monitor.
    pub state: TimingState,
    /// The configured idle timeout, in seconds; set once at construction and
    /// never changed afterwards.
    pub timeout: i64,
}

impl Controller {
    /// Creates a controller in the initial state. The timeout is a positive
    /// number of seconds of sustained no-motion required before a power-off.
    pub fn new(timeout_secs: i64) -> (c: Controller)
        requires
            timeout_secs >= 1,
        ensures
            c.state == TimingState::initial(),
            c.timeout == timeout_secs,
    {
        Controller { state: TimingState::new(), timeout: timeout_secs }
    }

    /// The configured idle timeout, in seconds.
    pub fn timeout_seconds(&self) -> (t: i64)
        ensures
            t == self.timeout,
    {
        self.timeout
    }

    /// Computes the derived display power state.
    pub fn display_on(&self) -> (b: bool)
        ensures
            b == self.state.is_on(),
    {
        self.state.display_on()
    }

    /// The edge handler: called on every sensor level change, with the new
    /// level. Reads the clock itself, so the recorded time is not pinned
    /// down; whatever the clock returned, a rising edge refreshes `last_on`
    /// and asks for a power-on, a falling edge refreshes `last_no_motion` and
    /// asks for nothing, and no edge ever asks for a power-off.
    pub fn on_edge(&mut self, level: PinLevel) -> (a: Option<PowerAction>)
        ensures
            a == crate::state::edge_action(level),
            a != Some(PowerAction::PowerOff),
            final(self).timeout == old(self).timeout,
            final(self).state.last_on >= old(self).state.last_on,
            final(self).state.last_off == old(self).state.last_off,
            final(self).state.last_no_motion >= old(self).state.last_no_motion,
            level is High ==> final(self).state.last_no_motion == old(self).state.last_no_motion,
            level is Low ==> final(self).state.last_on == old(self).state.last_on,
    {
        let mut now = now_seconds();
        if now < self.state.last_on {
            now = self.state.last_on;
        }
        if now < self.state.last_no_motion {
            now = self.state.last_no_motion;
        }
        self.state.record_edge(level, now)
    }

    /// The idle monitor's periodic check: true exactly when, at the clock's
    /// current time, the display is on and the idle timeout has expired. A
    /// true result is the cue to re-sample the sensor and call
    /// [`Self::confirm_power_off`]; whatever the clock returned, a true
    /// result implies that the display is on.
    pub fn idle_elapsed(&self) -> (b: bool)
        ensures
            b ==> self.state.is_on(),
    {
        let now = now_seconds();
        self.state.idle_expired(now, self.timeout)
    }

    /// The idle monitor's power-off decision, given the sensor level
    /// re-sampled at decision time. Re-checks, at the clock's current time,
    /// that the display is still on and the idle timeout is still expired, so
    /// a power-off is requested only when the display is on and the re-sample
    /// reads low, and the derived display state reads off afterwards; in
    /// every other case the state is left untouched.
    pub fn confirm_power_off(&mut self, resampled: PinLevel) -> (a: Option<PowerAction>)
        ensures
            final(self).timeout == old(self).timeout,
            a is Some ==> a == Some(PowerAction::PowerOff),
            a is Some ==> old(self).state.is_on() && resampled is Low,
            resampled is High ==> a is None,
            !old(self).state.is_on() ==> a is None,
            a is Some ==> !final(self).state.is_on(),
            a is None ==> final(self).state == old(self).state,
            final(self).state.last_off >= old(self).state.last_off,
            final(self).state.last_on == old(self).state.last_on,
            final(self).state.last_no_motion == old(self).state.last_no_motion,
    {
        let mut now = now_seconds();
        if now < self.state.last_off {
            now = self.state.last_off;
        }
        if now < self.state.last_on {
            now = self.state.last_on;
        }
        self.state.try_power_off(resampled, now, self.timeout)
    }
}

} // verus!
