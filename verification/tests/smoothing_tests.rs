use thestickening::SCALE;
use thestickening::config::AccelerationProfile;
use thestickening::smoothing::smooth_profile;

fn all_profiles() -> Vec<AccelerationProfile> {
    vec![
        AccelerationProfile::Linear,
        AccelerationProfile::SmoothStep,
        AccelerationProfile::SmootherStep,
        AccelerationProfile::EaseIn,
        AccelerationProfile::EaseInOut,
        AccelerationProfile::EaseOut,
        AccelerationProfile::SinusoidalEasing,
        AccelerationProfile::EaseInOutExpo,
    ]
}

#[test]
fn zero_maps_to_zero_for_every_profile() {
    for p in all_profiles() {
        assert_eq!(smooth_profile(0, &p), 0);
    }
}

#[test]
fn one_maps_to_one_for_every_profile() {
    for p in all_profiles() {
        assert_eq!(smooth_profile(SCALE, &p), SCALE);
        assert_eq!(smooth_profile(-SCALE, &p), -SCALE);
    }
}

#[test]
fn shaping_is_odd_for_every_profile() {
    for p in all_profiles() {
        let mut v: i64 = 0;
        while v <= SCALE {
            assert_eq!(smooth_profile(-v, &p), -smooth_profile(v, &p));
            v += 12345;
        }
    }
}

#[test]
fn shaping_is_monotonic_for_every_profile() {
    for p in all_profiles() {
        let mut prev = smooth_profile(-SCALE, &p);
        let mut v: i64 = -SCALE;
        while v <= SCALE {
            let cur = smooth_profile(v, &p);
            assert!(cur >= prev, "profile {:?} decreased at {}", p, v);
            prev = cur;
            v += 7919;
        }
        let top = smooth_profile(SCALE, &p);
        assert!(top >= prev);
    }
}

#[test]
fn linear_is_identity() {
    assert_eq!(smooth_profile(123456, &AccelerationProfile::Linear), 123456);
    assert_eq!(smooth_profile(-987654, &AccelerationProfile::Linear), -987654);
}

#[test]
fn smooth_step_values() {
    // 3 t^2 - 2 t^3 at t = 1/2 is exactly 1/2, at t = 1/4 it is 0.15625.
    assert_eq!(smooth_profile(500000, &AccelerationProfile::SmoothStep), 500000);
    assert_eq!(smooth_profile(250000, &AccelerationProfile::SmoothStep), 156250);
}

#[test]
fn smoother_step_values() {
    // 6 t^5 - 15 t^4 + 10 t^3 at t = 1/2 is exactly 1/2, at t = 1/4 it is
    // 0.103515625, floored to micro-units.
    assert_eq!(smooth_profile(500000, &AccelerationProfile::SmootherStep), 500000);
    assert_eq!(smooth_profile(250000, &AccelerationProfile::SmootherStep), 103515);
}

#[test]
fn ease_in_and_out_values() {
    assert_eq!(smooth_profile(500000, &AccelerationProfile::EaseIn), 250000);
    assert_eq!(smooth_profile(500000, &AccelerationProfile::EaseOut), 750000);
    assert_eq!(smooth_profile(250000, &AccelerationProfile::EaseInOut), 125000);
    assert_eq!(smooth_profile(500000, &AccelerationProfile::EaseInOut), 500000);
    assert_eq!(smooth_profile(750000, &AccelerationProfile::EaseInOut), 875000);
}

#[test]
fn sinusoidal_values() {
    // The rational sine approximation is exact at 0, 1/2 and 1, and close
    // to (1 - cos(pi t)) / 2 elsewhere.
    assert_eq!(smooth_profile(500000, &AccelerationProfile::SinusoidalEasing), 500000);
    assert_eq!(smooth_profile(250000, &AccelerationProfile::SinusoidalEasing), 147059);
    let true_quarter = 146447; // (1 - cos(pi/4)) / 2 in micro-units
    let got = smooth_profile(250000, &AccelerationProfile::SinusoidalEasing);
    assert!((got - true_quarter).abs() < 2000);
}

#[test]
fn exponential_values() {
    // 2^(20 t - 10) / 2 hits negative powers of two exactly on the octave
    // grid: t = 1/4 gives 1/64, t = 1/10 gives 1/512.
    assert_eq!(smooth_profile(500000, &AccelerationProfile::EaseInOutExpo), 500000);
    assert_eq!(smooth_profile(250000, &AccelerationProfile::EaseInOutExpo), 15625);
    assert_eq!(smooth_profile(100000, &AccelerationProfile::EaseInOutExpo), 1953);
    // The mirrored upper branch.
    assert_eq!(smooth_profile(750000, &AccelerationProfile::EaseInOutExpo), SCALE - 15625);
}
