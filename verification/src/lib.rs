//! Translates gamepad input into mouse cursor motion and clicks.
//!
//! Analog magnitudes are held in fixed point: one unit is `SCALE`
//! micro-units, so the real interval [-1, 1] becomes [-SCALE, SCALE].

pub mod app_control;
pub mod config;
pub mod gamepad;
pub mod icon;
pub mod motion;
pub mod smoothing;
pub mod timing;

use vstd::prelude::*;

verus! {

/// Number of fixed-point micro-units in one whole unit.
pub const SCALE: i64 = 1000000;

} // verus!
