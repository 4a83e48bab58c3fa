use thestickening::SCALE;
use thestickening::motion::{movement_control, movement_deltas, MouseMovementInput};

fn input(x: i64, y: i64, sens: i64, dz: i64) -> MouseMovementInput {
    MouseMovementInput { movement_vector: [x, y], sensitivity_factor: sens, deadzone: dz }
}

#[test]
fn both_axes_below_deadzone_yield_no_motion() {
    let inp = input(1000, 1000, 10000000, 5000);
    for lucky in [0i64, 1, 499999, 999999] {
        assert_eq!(movement_deltas(&inp, lucky), None);
    }
    for _ in 0..100 {
        assert_eq!(movement_control(&inp), None);
    }
}

#[test]
fn partial_deadzone_suppresses_one_axis() {
    // x = 0.5 at sensitivity 10 moves five pixels; y = 0.001 sits below
    // the deadzone of 0.005 and is suppressed to zero.
    let inp = input(500000, 1000, 10000000, 5000);
    for lucky in [0i64, 123456, 999999] {
        assert_eq!(movement_deltas(&inp, lucky), Some((5, 0)));
    }
}

#[test]
fn fast_axes_truncate_toward_zero() {
    let inp = input(350000, -350000, 10000000, 5000);
    // Raw speed 3.5 pixels per tick on both axes; y is negated for screen
    // space.
    assert_eq!(movement_deltas(&inp, 0), Some((3, 3)));
    let inp2 = input(-350000, 350000, 10000000, 5000);
    assert_eq!(movement_deltas(&inp2, 0), Some((-3, -3)));
}

#[test]
fn vertical_axis_is_inverted() {
    let inp = input(0, 500000, 10000000, 1000);
    assert_eq!(movement_deltas(&inp, 0), Some((0, -5)));
}

#[test]
fn subpixel_speeds_dither_on_the_shared_draw() {
    // Raw speed 0.3 pixels per tick: the draw decides between zero and one
    // pixel, and equality counts as a hit.
    let inp = input(30000, 0, 10000000, 1000);
    assert_eq!(movement_deltas(&inp, 299999), Some((1, 0)));
    assert_eq!(movement_deltas(&inp, 300000), Some((1, 0)));
    assert_eq!(movement_deltas(&inp, 300001), None);
    assert_eq!(movement_deltas(&inp, 999999), None);
    let neg = input(-30000, 0, 10000000, 1000);
    assert_eq!(movement_deltas(&neg, 100000), Some((-1, 0)));
}

#[test]
fn dithering_converges_to_the_average_speed() {
    // Raw speed 0.3 pixels per tick: over 10000 ticks the displacement
    // should approach 3000 pixels.
    let inp = input(30000, 0, 10000000, 1000);
    let mut total: i64 = 0;
    for _ in 0..10000 {
        if let Some((dx, dy)) = movement_control(&inp) {
            assert_eq!(dy, 0);
            total += dx as i64;
        }
    }
    assert!(total >= 2700, "displacement {} too small", total);
    assert!(total <= 3300, "displacement {} too large", total);
}

#[test]
fn zero_deltas_are_reported_as_no_motion() {
    // Above the deadzone but too slow for this draw on both axes.
    let inp = input(30000, 30000, 1000000, 1000);
    assert_eq!(movement_deltas(&inp, 999999), None);
}

#[test]
fn full_scale_input_moves_by_the_sensitivity() {
    let inp = input(SCALE, -SCALE, 5000000, 5000);
    assert_eq!(movement_deltas(&inp, 0), Some((5, 5)));
}
