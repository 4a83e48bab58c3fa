//! Motion accumulator: converts the per-tick movement vector and
//! sensitivity into an integer pixel delta, using randomized rounding so
//! that sub-pixel-per-tick speeds survive on average.
//!
//! Magnitudes are fixed point (`SCALE` micro-units per unit), so a raw
//! axis speed of one pixel per tick is the value `SCALE` after the
//! component and the sensitivity have been multiplied.

use vstd::prelude::*;
use vstd::math::abs;
use crate::SCALE;

verus! {

/// Largest allowed per-tick sensitivity factor (fixed point).
pub const MAX_SENSITIVITY: i64 = 1000000000000;

/// The sign of `v`: -1, 0 or 1.
pub open spec fn signum(v: int) -> int {
    if v > 0 {
        1
    } else if v < 0 {
        -1
    } else {
        0
    }
}

/// Mouse movement input structure.
pub struct MouseMovementInput {
    /// Horizontal and vertical movement vector.
    pub movement_vector: [i64; 2],
    /// Sensitivity factor for mouse movement.
    pub sensitivity_factor: i64,
    /// Moves that do not reach this threshold are ignored.
    pub deadzone: i64,
}

impl MouseMovementInput {
    /// Well-formedness: both components shaped into [-SCALE, SCALE], the
    /// sensitivity nonnegative and bounded, the deadzone below full
    /// deflection.
    pub open spec fn wf(&self) -> bool {
        &&& -SCALE <= self.movement_vector[0] <= SCALE
        &&& -SCALE <= self.movement_vector[1] <= SCALE
        &&& 0 <= self.sensitivity_factor <= MAX_SENSITIVITY
        &&& 0 <= self.deadzone < SCALE
    }
}

/// The per-tick raw speed of one axis, in micro-pixels: the magnitude of
/// the component times the sensitivity.
pub open spec fn axis_raw_mag(comp: int, sens: int) -> int {
    (abs(comp) * sens) / (SCALE as int)
}

/// The dithered pixel delta of one axis: speeds of at least one pixel per
/// tick truncate toward zero; slower speeds yield one signed pixel when
/// the random draw `lucky` falls below the speed, and zero otherwise.
pub open spec fn axis_delta(comp: int, sens: int, lucky: int) -> int {
    let mag = axis_raw_mag(comp, sens);
    if mag < SCALE {
        if mag < lucky {
            0
        } else {
            signum(comp)
        }
    } else {
        signum(comp) * (mag / (SCALE as int))
    }
}

/// One evaluation of the accumulator: nothing when both components sit
/// below the deadzone; otherwise components below the deadzone are
/// suppressed individually, each axis is dithered with the shared draw
/// `lucky` (the vertical axis negated for screen space), and a delta is
/// reported only when one axis moved.
pub open spec fn tick_spec(mv0: int, mv1: int, sens: int, dz: int, lucky: int) -> Option<
    (int, int),
> {
    if abs(mv0) < dz && abs(mv1) < dz {
        None
    } else {
        let h = if abs(mv0) < dz {
            0
        } else {
            mv0
        };
        let v = if abs(mv1) < dz {
            0
        } else {
            mv1
        };
        let dx = axis_delta(h, sens, lucky);
        let dy = axis_delta(-v, sens, lucky);
        if dx != 0 || dy != 0 {
            Some((dx, dy))
        } else {
            None
        }
    }
}

/// Whether the executable delta pair reports exactly the spec-level result.
pub open spec fn delta_matches(r: Option<(i32, i32)>, s: Option<(int, int)>) -> bool {
    match r {
        None => s is None,
        Some(p) => s == Some((p.0 as int, p.1 as int)),
    }
}

/// The dithered pixel delta of one axis, for a given random draw.
fn axis_delta_value(comp: i64, sens: i64, lucky: i64) -> (d: i32)
    requires
        -SCALE <= comp <= SCALE,
        0 <= sens <= MAX_SENSITIVITY,
        0 <= lucky < SCALE,
    ensures
        d == axis_delta(comp as int, sens as int, lucky as int),
        -1000000 <= d <= 1000000,
{
    let m = if comp < 0 {
        -comp
    } else {
        comp
    };
    let sgn: i32 = if comp > 0 {
        1
    } else if comp < 0 {
        -1
    } else {
        0
    };
    assert(m * sens <= 1000000000000000000) by (nonlinear_arith)
        requires
            0 <= m <= 1000000,
            0 <= sens <= 1000000000000,
    ;
    assert(m * sens >= 0) by (nonlinear_arith)
        requires
            0 <= m,
            0 <= sens,
    ;
    let num = (m * sens) as u64;
    let mag = num / (SCALE as u64);
    proof {
        vstd::arithmetic::div_mod::lemma_div_is_ordered(
            num as int,
            1000000000000000000,
            SCALE as int,
        );
        assert(1000000000000000000int / 1000000int == 1000000000000);
        vstd::arithmetic::div_mod::lemma_div_pos_is_pos(num as int, SCALE as int);
        assert(mag == axis_raw_mag(comp as int, sens as int));
    }
    if mag < SCALE as u64 {
        if mag < lucky as u64 {
            0
        } else {
            sgn
        }
    } else {
        let px = mag / (SCALE as u64);
        proof {
            vstd::arithmetic::div_mod::lemma_div_is_ordered(
                mag as int,
                1000000000000,
                SCALE as int,
            );
            assert(1000000000000int / 1000000int == 1000000);
            vstd::arithmetic::div_mod::lemma_div_pos_is_pos(mag as int, SCALE as int);
        }
        let px32 = px as i32;
        sgn * px32
    }
}

/// Evaluates the accumulator for a given random draw, exactly as
/// `tick_spec` states.
pub fn movement_deltas(input: &MouseMovementInput, lucky: i64) -> (r: Option<(i32, i32)>)
    requires
        input.wf(),
        0 <= lucky < SCALE,
    ensures
        delta_matches(
            r,
            tick_spec(
                input.movement_vector[0] as int,
                input.movement_vector[1] as int,
                input.sensitivity_factor as int,
                input.deadzone as int,
                lucky as int,
            ),
        ),
{
    let sens = input.sensitivity_factor;
    let dz = input.deadzone;
    let mut horizontal = input.movement_vector[0];
    let mut vertical = input.movement_vector[1];
    let habs = if horizontal < 0 {
        -horizontal
    } else {
        horizontal
    };
    let vabs = if vertical < 0 {
        -vertical
    } else {
        vertical
    };
    if habs < dz && vabs < dz {
        return None;
    }
    // Suppress residual motion on either axis alone.
    horizontal = if habs < dz {
        0
    } else {
        horizontal
    };
    vertical = if vabs < dz {
        0
    } else {
        vertical
    };
    let delta_x = axis_delta_value(horizontal, sens, lucky);
    let delta_y = axis_delta_value(-vertical, sens, lucky);
    if delta_x != 0 || delta_y != 0 {
        Some((delta_x, delta_y))
    } else {
        None
    }
}

/// Relies on rand::random::<u64>: a machine-random value of which nothing
/// is assumed.
#[verifier::external_body]
fn random_u64() -> u64 {
    rand::random::<u64>()
}

/// Handles mouse movement for one tick: draws the shared random value and
/// dithers both axes with it. Whatever was drawn, input below the deadzone
/// on both axes yields no motion, and the result is the accumulator's
/// answer for some draw in [0, SCALE).
pub fn movement_control(input: &MouseMovementInput) -> (r: Option<(i32, i32)>)
    requires
        input.wf(),
    ensures
        abs(input.movement_vector[0] as int) < input.deadzone && abs(
            input.movement_vector[1] as int,
        ) < input.deadzone ==> r is None,
        exists|lucky: int|
            0 <= lucky < SCALE && delta_matches(
                r,
                tick_spec(
                    input.movement_vector[0] as int,
                    input.movement_vector[1] as int,
                    input.sensitivity_factor as int,
                    input.deadzone as int,
                    lucky,
                ),
            ),
{
    let raw = random_u64();
    let lucky = (raw % (SCALE as u64)) as i64;
    let r = movement_deltas(input, lucky);
    proof {
        assert(0 <= lucky < SCALE && delta_matches(
            r,
            tick_spec(
                input.movement_vector[0] as int,
                input.movement_vector[1] as int,
                input.sensitivity_factor as int,
                input.deadzone as int,
                lucky as int,
            ),
        ));
    }
    r
}

} // verus!
