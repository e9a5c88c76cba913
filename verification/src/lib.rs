//! Core engine of an EMG-driven pointing device: rolling windowed
//! aggregation, an online single-frequency activity estimate with a
//! self-calibrating noise floor, a hysteretic per-channel state machine,
//! a cross-clock time estimator, and the arbitration layer that decides
//! which follower owns the pointer and which click/scroll actions to emit.
//!
//! All quantities are integers: times are microseconds, signal values and
//! trigonometric factors are fixed-point numbers in units of
//! `numeric::SCALE`. Transport layers (device feeds, network, UI) live
//! outside this crate and exchange plain values with it.

pub mod calibration;
pub mod config;
pub mod follower;
pub mod numeric;
pub mod protocol;
pub mod remote_time_estimator;
pub mod signal;
pub mod supervisor;
pub mod window;
