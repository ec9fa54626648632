//! Drives a display's power state from a single binary motion sensor.
//!
//! The display is kept on while motion is present or was recently seen, and is
//! powered off only after a sustained idle period. The crate holds the
//! motion-to-power state machine: three shared timestamps (`last_on`,
//! `last_off`, `last_no_motion`), the edge-handler transition that reacts to
//! sensor level changes, and the idle-monitor decision that powers the display
//! off once no motion has been seen for a configured number of seconds and a
//! re-sample of the sensor still reads low. The surrounding process wires
//! these decisions to the GPIO driver, the clock, and the power actuator.

pub mod config;
pub mod controller;
pub mod state;
pub mod trace;
