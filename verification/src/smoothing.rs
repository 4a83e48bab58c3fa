//! Acceleration shaping curves in fixed point.
//!
//! Every curve maps a magnitude in [0, `SCALE`] to a shaped magnitude in
//! [0, `SCALE`]; `smooth_profile` extends a curve to signed input by acting
//! on the absolute value and reapplying the sign. The polynomial profiles
//! are evaluated exactly over the integers (with one final floor division);
//! the sinusoidal and exponential profiles use monotone rational
//! interpolants with exact values at 0, 1/2 and 1.

use vstd::prelude::*;
use crate::SCALE;
use crate::config::AccelerationProfile;

verus! {

/// The fixed-point unit as a mathematical integer.
pub open spec fn sc() -> int {
    SCALE as int
}

/// Numerator coefficient interpolating 2^v between v = 0 and v = 1:
/// 2^v is approximated by 1 + (EXP2_A/SCALE)v + (EXP2_B/SCALE)v^2,
/// which is exact at v = 0 and v = 1.
pub const EXP2_A: i64 = 656854;

/// Quadratic coefficient of the 2^v interpolant; EXP2_A + EXP2_B == SCALE.
pub const EXP2_B: i64 = 343146;

/// f(t) = t^2 (3 - 2t), scaled.
pub open spec fn smooth_step_curve(x: int) -> int {
    (x * x * (3 * sc() - 2 * x)) / (sc() * sc())
}

/// f(t) = t^3 (t (6t - 15) + 10), scaled.
pub open spec fn smoother_step_curve(x: int) -> int {
    (x * x * x * (x * (6 * x - 15 * sc()) + 10 * sc() * sc())) / (sc() * sc() * sc() * sc())
}

/// f(t) = t^2, scaled.
pub open spec fn ease_in_curve(x: int) -> int {
    (x * x) / sc()
}

/// f(t) = 1 - (1 - t)^2, scaled.
pub open spec fn ease_out_curve(x: int) -> int {
    (sc() * sc() - (sc() - x) * (sc() - x)) / sc()
}

/// f(t) = if t < 1/2 { 2t^2 } else { 1 - (-2t + 2)^2 / 2 }, scaled.
pub open spec fn ease_in_out_curve(x: int) -> int {
    if 2 * x < sc() {
        (2 * x * x) / sc()
    } else {
        sc() - ((2 * sc() - 2 * x) * (2 * sc() - 2 * x)) / (2 * sc())
    }
}

/// Numerator of the rational approximation of sin(pi a / SCALE).
pub open spec fn sine_num(a: int) -> int {
    16 * (a * (sc() - a))
}

/// Denominator of the rational approximation of sin(pi a / SCALE).
pub open spec fn sine_den(a: int) -> int {
    5 * sc() * sc() - 4 * (a * (sc() - a))
}

/// Rational approximation of sin(pi a / SCALE) on [0, SCALE/2], scaled;
/// exact at a = 0 (gives 0) and a = SCALE/2 (gives SCALE).
pub open spec fn sine_approx(a: int) -> int {
    (sine_num(a) * sc()) / sine_den(a)
}

/// f(t) = 0.5 - 0.5 cos(pi t), scaled, via cos(pi t) = sin(pi (1/2 - t)).
pub open spec fn sinusoidal_curve(x: int) -> int {
    if 2 * x <= sc() {
        (sc() - sine_approx(sc() / 2 - x)) / 2
    } else {
        (sc() + sine_approx(x - sc() / 2)) / 2
    }
}

/// Quadratic interpolant of SCALE * 2^(v / SCALE) for v in [0, SCALE];
/// exact at v = 0 (gives SCALE) and v = SCALE (gives 2 * SCALE).
pub open spec fn exp2_interp(v: int) -> int {
    sc() + (v * ((EXP2_A as int) + ((EXP2_B as int) * v) / sc())) / sc()
}

/// 2^(-n / SCALE) / 2 for n in [0, 10 SCALE], scaled: splitting n into
/// whole and fractional octaves, the value is
/// 2^((SCALE - n % SCALE) / SCALE) / 2^(n / SCALE + 2).
pub open spec fn expo_step(n: int) -> int {
    exp2_interp(sc() - n % sc()) / (vstd::arithmetic::power2::pow2((n / sc() + 2) as nat) as int)
}

/// The lower branch f(t) = 2^(20t - 10) / 2 for t in [0, 1/2], scaled.
pub open spec fn expo_low(x: int) -> int {
    expo_step(10 * sc() - 20 * x)
}

/// f(t) = 0 at t = 0, 1 at t = 1, 2^(20t - 10)/2 below 1/2,
/// and (2 - 2^(-20t + 10))/2 above, scaled. The two exponential branches
/// are mirror images: the upper one is 1 - f(1 - t) of the lower.
pub open spec fn expo_curve(x: int) -> int {
    if x <= 0 {
        0
    } else if x >= sc() {
        sc()
    } else if 2 * x <= sc() {
        expo_low(x)
    } else {
        sc() - expo_low(sc() - x)
    }
}

/// The shaped magnitude of `x` in [0, SCALE] under profile `p`.
pub open spec fn curve(p: AccelerationProfile, x: int) -> int {
    match p {
        AccelerationProfile::Linear => x,
        AccelerationProfile::SmoothStep => smooth_step_curve(x),
        AccelerationProfile::SmootherStep => smoother_step_curve(x),
        AccelerationProfile::EaseIn => ease_in_curve(x),
        AccelerationProfile::EaseInOut => ease_in_out_curve(x),
        AccelerationProfile::EaseOut => ease_out_curve(x),
        AccelerationProfile::SinusoidalEasing => sinusoidal_curve(x),
        AccelerationProfile::EaseInOutExpo => expo_curve(x),
    }
}

/// The shaped value of signed `v`: the curve applied to |v|, with the
/// sign of `v` reapplied.
pub open spec fn shape_spec(v: int, p: AccelerationProfile) -> int {
    if v >= 0 {
        curve(p, v)
    } else {
        -curve(p, -v)
    }
}

fn smooth_step_value(x: i64) -> (r: i64)
    requires
        0 <= x <= SCALE,
    ensures
        r == smooth_step_curve(x as int),
        r >= 0,
{
    let xu = x as u128;
    let s = SCALE as u128;
    assert(xu * xu <= 1000000000000) by (nonlinear_arith)
        requires
            xu <= 1000000,
    ;
    let sq = xu * xu;
    assert(sq * (3 * s - 2 * xu) <= 3000000000000000000) by (nonlinear_arith)
        requires
            sq <= 1000000000000,
            xu <= 1000000,
            s == 1000000,
    ;
    let num = sq * (3 * s - 2 * xu);
    let r = num / (s * s);
    proof {
        vstd::arithmetic::div_mod::lemma_div_nonincreasing(num as int, (s * s) as int);
        vstd::arithmetic::div_mod::lemma_div_pos_is_pos(num as int, (s * s) as int);
    }
    r as i64
}

fn smoother_step_value(x: i64) -> (r: i64)
    requires
        0 <= x <= SCALE,
    ensures
        r == smoother_step_curve(x as int),
        r >= 0,
{
    let xu = x as u128;
    let s = SCALE as u128;
    assert(xu * xu <= 1000000000000 && xu * xu * xu <= 1000000000000000000) by (nonlinear_arith)
        requires
            xu <= 1000000,
    ;
    let cube = xu * xu * xu;
    // 15 s x - 6 x^2 lies in [0, 9 s^2], so the inner factor
    // 10 s^2 - x (15 s - 6 x) lies in [s^2, 10 s^2].
    assert(xu * (15 * s - 6 * xu) <= 9000000000000) by (nonlinear_arith)
        requires
            xu <= 1000000,
            s == 1000000,
    ;
    let inner = 10 * s * s - xu * (15 * s - 6 * xu);
    assert(cube * inner <= 10000000000000000000000000000000) by (nonlinear_arith)
        requires
            cube <= 1000000000000000000,
            inner <= 10000000000000,
    ;
    let num = cube * inner;
    let r = num / (s * s * s * s);
    proof {
        vstd::arithmetic::div_mod::lemma_div_is_ordered(
            num as int,
            10000000000000000000000000000000,
            (s * s * s * s) as int,
        );
        assert(10000000000000000000000000000000int / 1000000000000000000000000int == 10000000);
    }
    proof {
        assert(num == x * x * x * (x * (6 * x - 15 * sc()) + 10 * sc() * sc())) by (nonlinear_arith)
            requires
                0 <= x <= 1000000,
                sc() == 1000000,
                xu == x,
                s == 1000000,
                cube == xu * xu * xu,
                inner == 10 * s * s - xu * (15 * s - 6 * xu),
                num == cube * inner,
        ;
        vstd::arithmetic::div_mod::lemma_div_nonincreasing(num as int, (s * s * s * s) as int);
        vstd::arithmetic::div_mod::lemma_div_pos_is_pos(num as int, (s * s * s * s) as int);
    }
    r as i64
}

fn ease_in_value(x: i64) -> (r: i64)
    requires
        0 <= x <= SCALE,
    ensures
        r == ease_in_curve(x as int),
        r >= 0,
{
    let xu = x as u128;
    let s = SCALE as u128;
    assert(xu * xu <= 1000000000000) by (nonlinear_arith)
        requires
            xu <= 1000000,
    ;
    let r = (xu * xu) / s;
    r as i64
}

fn ease_out_value(x: i64) -> (r: i64)
    requires
        0 <= x <= SCALE,
    ensures
        r == ease_out_curve(x as int),
        r >= 0,
{
    let xu = x as u128;
    let s = SCALE as u128;
    assert((s - xu) * (s - xu) <= 1000000000000) by (nonlinear_arith)
        requires
            s == 1000000,
            xu <= 1000000,
    ;
    let r = (s * s - (s - xu) * (s - xu)) / s;
    r as i64
}

fn ease_in_out_value(x: i64) -> (r: i64)
    requires
        0 <= x <= SCALE,
    ensures
        r == ease_in_out_curve(x as int),
        r >= 0,
{
    let xu = x as u128;
    let s = SCALE as u128;
    if 2 * x < SCALE {
        assert(2 * (xu * xu) <= 2000000000000) by (nonlinear_arith)
            requires
                xu <= 1000000,
        ;
        let r = (2 * (xu * xu)) / s;
        assert(2 * (xu as int * xu as int) == 2 * (x as int) * (x as int)) by (nonlinear_arith)
            requires
                xu == x,
        ;
        r as i64
    } else {
        let u = 2 * s - 2 * xu;
        // In this branch 2x >= SCALE, so u <= SCALE and u^2 / (2 SCALE)
        // is at most SCALE / 2.
        assert(u * u <= 1000000000000) by (nonlinear_arith)
            requires
                u <= 1000000,
        ;
        let d = (u * u) / (2 * s);
        proof {
            vstd::arithmetic::div_mod::lemma_div_nonincreasing((u * u) as int, (2 * s) as int);
            vstd::arithmetic::div_mod::lemma_div_pos_is_pos((u * u) as int, (2 * s) as int);
        }
        let r = s - d;
        r as i64
    }
}

fn sinusoidal_value(x: i64) -> (r: i64)
    requires
        0 <= x <= SCALE,
    ensures
        r == sinusoidal_curve(x as int),
        r >= 0,
{
    let s = SCALE as u128;
    let below = 2 * x <= SCALE;
    let a: u128 = if below {
        (SCALE / 2 - x) as u128
    } else {
        (x - SCALE / 2) as u128
    };
    assert(a * (s - a) * 4 <= s * s) by (nonlinear_arith)
        requires
            s == 1000000,
            a <= 1000000,
    ;
    let prod = a * (s - a);
    let num = 16 * prod;
    let den = 5 * s * s - 4 * prod;
    assert(num * s <= 4000000000000000000) by (nonlinear_arith)
        requires
            num <= 4000000000000,
            s == 1000000,
    ;
    let g = (num * s) / den;
    proof {
        // num * s <= s * den since 20 * prod <= 5 * s^2, hence g <= s.
        assert(num * s <= s * den) by (nonlinear_arith)
            requires
                num == 16 * prod,
                den == 5 * s * s - 4 * prod,
                4 * prod <= s * s,
                s == 1000000,
        ;
        vstd::arithmetic::div_mod::lemma_div_is_ordered((num * s) as int, (s * den) as int, den as int);
        vstd::arithmetic::div_mod::lemma_div_multiples_vanish(s as int, den as int);
        assert((s * den) as int / den as int == s);
        vstd::arithmetic::div_mod::lemma_div_pos_is_pos((num * s) as int, den as int);
        assert(num as int * s as int == sine_num(a as int) * sc() && den as int == sine_den(
            a as int,
        )) by (nonlinear_arith)
            requires
                num == 16 * prod,
                den == 5 * s * s - 4 * prod,
                prod == a * (s - a),
                s == 1000000,
                sc() == 1000000,
                a <= 1000000,
        ;
        assert(g == sine_approx(a as int));
    }
    if below {
        let r = (s - g) / 2;
        r as i64
    } else {
        let r = (s + g) / 2;
        r as i64
    }
}

/// SCALE * 2^(v / SCALE), by the quadratic interpolant, for v in [0, SCALE].
fn exp2_interp_value(v: u128) -> (r: u128)
    requires
        v <= SCALE,
    ensures
        r == exp2_interp(v as int),
        SCALE <= r <= 2 * SCALE,
{
    let s = SCALE as u128;
    assert((EXP2_B as u128) * v <= 343146000000) by (nonlinear_arith)
        requires
            v <= 1000000,
    ;
    let quad = ((EXP2_B as u128) * v) / s;
    proof {
        // B * v <= B * s, so quad <= B.
        assert((EXP2_B as u128) * v <= (EXP2_B as u128) * s) by (nonlinear_arith)
            requires
                v <= s,
        ;
        vstd::arithmetic::div_mod::lemma_div_is_ordered(
            ((EXP2_B as u128) * v) as int,
            ((EXP2_B as u128) * s) as int,
            s as int,
        );
        vstd::arithmetic::div_mod::lemma_div_multiples_vanish(EXP2_B as int, s as int);
        vstd::arithmetic::div_mod::lemma_div_pos_is_pos(((EXP2_B as u128) * v) as int, s as int);
    }
    let inner = (EXP2_A as u128) + quad;
    assert(v * inner <= v * s) by (nonlinear_arith)
        requires
            inner <= s,
    ;
    assert(v * s <= 1000000000000) by (nonlinear_arith)
        requires
            v <= 1000000,
            s == 1000000,
    ;
    let lin = (v * inner) / s;
    proof {
        vstd::arithmetic::div_mod::lemma_div_is_ordered((v * inner) as int, (v * s) as int, s as int);
        vstd::arithmetic::div_mod::lemma_div_multiples_vanish(v as int, s as int);
        vstd::arithmetic::div_mod::lemma_div_pos_is_pos((v * inner) as int, s as int);
    }
    s + lin
}

/// 2^(e + 2) for e in [0, 10], tied to vstd's pow2.
fn pow2_shifted(e: u64) -> (r: u128)
    requires
        e <= 10,
    ensures
        r == vstd::arithmetic::power2::pow2((e + 2) as nat),
{
    proof {
        vstd::arithmetic::power2::lemma2_to64();
    }
    match e {
        0 => 4,
        1 => 8,
        2 => 16,
        3 => 32,
        4 => 64,
        5 => 128,
        6 => 256,
        7 => 512,
        8 => 1024,
        9 => 2048,
        _ => 4096,
    }
}

/// The lower exponential branch, for 1 <= x <= SCALE / 2.
fn expo_low_value(x: i64) -> (r: i64)
    requires
        1 <= x,
        2 * x <= SCALE,
    ensures
        r == expo_low(x as int),
        r >= 0,
{
    let n = (10 * SCALE - 20 * x) as u64;
    let su = SCALE as u64;
    let q = n / su;
    let rem = n % su;
    let v = (su - rem) as u128;
    proof {
        assert(n as int == 10 * sc() - 20 * (x as int));
        assert(n < 10000000);
        assert(q == n as int / sc() && rem == n as int % sc()) by {
            assert(su as int == sc());
        }
        vstd::arithmetic::div_mod::lemma_remainder_upper(n as int, sc());
        vstd::arithmetic::div_mod::lemma_remainder_lower(n as int, sc());
        vstd::arithmetic::div_mod::lemma_div_pos_is_pos(n as int, sc());
        assert(q <= 9) by {
            vstd::arithmetic::div_mod::lemma_div_is_ordered(n as int, 9999999, sc());
            assert(9999999int / 1000000int == 9);
        }
    }
    let e = exp2_interp_value(v);
    let d = pow2_shifted(q);
    proof {
        vstd::arithmetic::power2::lemma_pow2_pos((q + 2) as nat);
    }
    let r = e / d;
    proof {
        vstd::arithmetic::div_mod::lemma_div_nonincreasing(e as int, d as int);
        vstd::arithmetic::div_mod::lemma_div_pos_is_pos(e as int, d as int);
    }
    r as i64
}

fn expo_value(x: i64) -> (r: i64)
    requires
        0 <= x <= SCALE,
    ensures
        r == expo_curve(x as int),
        r >= 0,
{
    if x == 0 {
        0
    } else if x == SCALE {
        SCALE
    } else if 2 * x <= SCALE {
        expo_low_value(x)
    } else {
        let low = expo_low_value(SCALE - x);
        proof {
            // The mirrored branch subtracts a value no larger than
            // exp2_interp's maximum over its smallest divisor.
            assert(expo_low((sc() - x) as int) <= 2 * sc() / 4) by {
                lemma_expo_low_le_half((sc() - x) as int);
            }
        }
        SCALE - low
    }
}

/// The lower exponential branch never exceeds SCALE / 2.
proof fn lemma_expo_low_le_half(x: int)
    requires
        1 <= x,
        2 * x <= sc(),
    ensures
        0 <= expo_low(x) <= sc() / 2,
{
    let n = 10 * sc() - 20 * x;
    vstd::arithmetic::div_mod::lemma_remainder_upper(n, sc());
    vstd::arithmetic::div_mod::lemma_remainder_lower(n, sc());
    let v = sc() - n % sc();
    lemma_exp2_interp_bounds(v);
    let q = n / sc();
    vstd::arithmetic::div_mod::lemma_div_pos_is_pos(n, sc());
    vstd::arithmetic::power2::lemma2_to64();
    let d = vstd::arithmetic::power2::pow2((q + 2) as nat) as int;
    assert(d >= 4) by {
        vstd::arithmetic::power2::lemma_pow2_adds(2, q as nat);
        assert(vstd::arithmetic::power2::pow2(2) == 4);
        vstd::arithmetic::power2::lemma_pow2_pos(q as nat);
        assert(vstd::arithmetic::power2::pow2((q + 2) as nat) == 4 * vstd::arithmetic::power2::pow2(
            q as nat,
        )) by (nonlinear_arith)
            requires
                vstd::arithmetic::power2::pow2((q + 2) as nat) == vstd::arithmetic::power2::pow2(2)
                    * vstd::arithmetic::power2::pow2(q as nat),
                vstd::arithmetic::power2::pow2(2) == 4,
        ;
        vstd::arithmetic::power2::lemma_pow2_pos(q as nat);
    }
    vstd::arithmetic::div_mod::lemma_div_is_ordered(exp2_interp(v), 2 * sc(), d);
    vstd::arithmetic::div_mod::lemma_div_is_ordered_by_denominator(2 * sc(), 4, d);
    assert(2 * sc() / 4 == sc() / 2) by {
        assert(2 * sc() == 2000000 && sc() == 1000000);
    }
    vstd::arithmetic::div_mod::lemma_div_pos_is_pos(exp2_interp(v), d);
}

/// The quadratic 2^v interpolant stays within [SCALE, 2 SCALE] on [0, SCALE].
proof fn lemma_exp2_interp_bounds(v: int)
    requires
        0 <= v <= sc(),
    ensures
        sc() <= exp2_interp(v) <= 2 * sc(),
{
    assert((EXP2_B as int) * v <= (EXP2_B as int) * sc()) by (nonlinear_arith)
        requires
            0 <= v <= sc(),
    ;
    vstd::arithmetic::div_mod::lemma_div_is_ordered((EXP2_B as int) * v, (EXP2_B as int) * sc(), sc());
    vstd::arithmetic::div_mod::lemma_div_multiples_vanish(EXP2_B as int, sc());
    vstd::arithmetic::div_mod::lemma_div_pos_is_pos((EXP2_B as int) * v, sc());
    let inner = (EXP2_A as int) + ((EXP2_B as int) * v) / sc();
    assert(v * inner <= v * sc()) by (nonlinear_arith)
        requires
            0 <= v,
            inner <= sc(),
    ;
    assert(v * sc() <= sc() * sc()) by (nonlinear_arith)
        requires
            0 <= v <= sc(),
    ;
    vstd::arithmetic::div_mod::lemma_div_is_ordered(v * inner, sc() * sc(), sc());
    vstd::arithmetic::div_mod::lemma_div_multiples_vanish(sc(), sc());
    assert(v * inner >= 0) by (nonlinear_arith)
        requires
            0 <= v,
            0 <= inner,
    ;
    vstd::arithmetic::div_mod::lemma_div_pos_is_pos(v * inner, sc());
}

/// Applies the shaping curve of `profile` to `value`, acting on the
/// absolute value and reapplying the sign, as `shape_spec` states.
pub fn smooth_profile(value: i64, profile: &AccelerationProfile) -> (r: i64)
    requires
        -SCALE <= value <= SCALE,
    ensures
        r == shape_spec(value as int, *profile),
        -SCALE <= r <= SCALE,
{
    proof {
        lemma_shape_range(*profile, value as int);
    }
    if value >= 0 {
        curve_value(value, profile)
    } else {
        let m = curve_value(-value, profile);
        -m
    }
}

/// Floors of fractions respect the order of the fractions:
/// p1/q1 <= p2/q2 (as rationals) implies floor(p1/q1) <= floor(p2/q2).
proof fn lemma_div_frac_mono(p1: int, q1: int, p2: int, q2: int)
    requires
        0 <= p1,
        0 <= p2,
        0 < q1,
        0 < q2,
        p1 * q2 <= p2 * q1,
    ensures
        p1 / q1 <= p2 / q2,
{
    let f1 = p1 / q1;
    let f2 = p2 / q2;
    let r1 = p1 % q1;
    let r2 = p2 % q2;
    vstd::arithmetic::div_mod::lemma_fundamental_div_mod(p1, q1);
    vstd::arithmetic::div_mod::lemma_fundamental_div_mod(p2, q2);
    vstd::arithmetic::div_mod::lemma_mod_division_less_than_divisor(p1, q1);
    vstd::arithmetic::div_mod::lemma_mod_division_less_than_divisor(p2, q2);
    vstd::arithmetic::div_mod::lemma_div_pos_is_pos(p1, q1);
    assert(f1 <= f2) by (nonlinear_arith)
        requires
            p1 == q1 * f1 + r1,
            p2 == q2 * f2 + r2,
            0 <= r1 < q1,
            0 <= r2 < q2,
            0 < q1,
            0 < q2,
            0 <= f1,
            p1 * q2 <= p2 * q1,
    ;
}

/// Squaring preserves order on nonnegative integers.
proof fn lemma_sq_mono(a: int, b: int)
    requires
        0 <= a <= b,
    ensures
        a * a <= b * b,
{
    vstd::arithmetic::mul::lemma_mul_upper_bound(a, b, a, b);
}

/// One step of the smooth-step numerator x^2 (3s - 2x): substituting
/// s = x + y + 1 turns the difference into 6xy + 3x + 3y + 1 >= 0.
proof fn lemma_smooth_step_num_step(x: int)
    requires
        0 <= x < sc(),
    ensures
        x * x * (3 * sc() - 2 * x) <= (x + 1) * (x + 1) * (3 * sc() - 2 * (x + 1)),
{
    let y = sc() - 1 - x;
    assert((x + 1) * (x + 1) * (3 * (x + y + 1) - 2 * (x + 1)) - x * x * (3 * (x + y + 1) - 2 * x)
        == 6 * x * y + 3 * x + 3 * y + 1) by (nonlinear_arith);
    assert(6 * x * y >= 0) by (nonlinear_arith)
        requires
            x >= 0,
            y >= 0,
    ;
}

/// The smooth-step numerator is non-decreasing on [0, SCALE].
proof fn lemma_smooth_step_num_mono(a: int, b: int)
    requires
        0 <= a <= b <= sc(),
    ensures
        a * a * (3 * sc() - 2 * a) <= b * b * (3 * sc() - 2 * b),
    decreases b - a,
{
    if a < b {
        lemma_smooth_step_num_mono(a, b - 1);
        lemma_smooth_step_num_step(b - 1);
    }
}

/// One step of the smoother-step numerator x^3 (x (6x - 15s) + 10 s^2):
/// substituting s = x + y + 1 turns the difference into a polynomial in
/// x and y with nonnegative coefficients.
/// Substituting w = s - t rewrites the smoother-step inner factor:
/// t (6t - 15s) + 10 s^2 == t^2 + 5tw + 10w^2.
proof fn lemma_smoother_step_inner_rewrite(t: int, s: int)
    ensures
        t * t * t * (t * (6 * t - 15 * s) + 10 * s * s) == t * t * t * (t * t + 5 * t * (s - t) + 10
            * (s - t) * (s - t)),
{
    let w = s - t;
    assert(t * (6 * t - 15 * s) + 10 * s * s == t * t + 5 * t * w + 10 * w * w) by (nonlinear_arith)
        requires
            w == s - t,
    ;
}

proof fn lemma_smoother_step_num_step(x: int)
    requires
        0 <= x < sc(),
    ensures
        x * x * x * (x * (6 * x - 15 * sc()) + 10 * sc() * sc()) <= (x + 1) * (x + 1) * (x + 1) * (
        (x + 1) * (6 * (x + 1) - 15 * sc()) + 10 * sc() * sc()),
{
    let y = sc() - 1 - x;
    let s = sc();
    let x2 = x * x;
    let x3c = x2 * x;
    let x4 = x2 * x2;
    let x5 = x3c * x2;
    let y2 = y * y;
    let xy = x * y;
    let x2y = x2 * y;
    let x3y = x3c * y;
    let x4y = x4 * y;
    let xy2 = x * y2;
    let x2y2 = x2 * y2;
    let x3y2 = x3c * y2;
    let bu = x2 + 5 * xy + 10 * y2 + 2 * x + 5 * y + 1;
    let bx = x2 + 5 * xy + 5 * x + 10 * y2 + 20 * y + 10;
    let q = 3 * x2 + 3 * x + 1;
    lemma_smoother_step_inner_rewrite(x, s);
    lemma_smoother_step_inner_rewrite(x + 1, s);
    // Products of the named monomials, all instances of associativity.
    assert(x3c * x2 == x5 && x3c * xy == x4y && x3c * y2 == x3y2 && x3c * x == x4 && x3c * y == x3y
        && x2 * xy == x3y && x2 * y2 == x2y2 && x2 * y == x2y && x * xy == x2y && x * x2 == x3c && x
        * y2 == xy2) by (nonlinear_arith)
        requires
            x2 == x * x,
            x3c == x2 * x,
            x4 == x2 * x2,
            x5 == x3c * x2,
            y2 == y * y,
            xy == x * y,
            x2y == x2 * y,
            x3y == x3c * y,
            x4y == x4 * y,
            xy2 == x * y2,
            x2y2 == x2 * y2,
            x3y2 == x3c * y2,
    ;
    // The inner factors at x (with s - x == y + 1) and at x + 1 (with
    // s - (x + 1) == y), written over the named monomials.
    assert(x * x + 5 * x * (s - x) + 10 * (s - x) * (s - x) == bx) by (nonlinear_arith)
        requires
            s - x == y + 1,
            x2 == x * x,
            xy == x * y,
            y2 == y * y,
            bx == x2 + 5 * xy + 5 * x + 10 * y2 + 20 * y + 10,
    ;
    assert((x + 1) * (x + 1) + 5 * (x + 1) * (s - (x + 1)) + 10 * (s - (x + 1)) * (s - (x + 1))
        == bu) by (nonlinear_arith)
        requires
            s - (x + 1) == y,
            x2 == x * x,
            xy == x * y,
            y2 == y * y,
            bu == x2 + 5 * xy + 10 * y2 + 2 * x + 5 * y + 1,
    ;
    assert(x * x * x == x3c && (x + 1) * (x + 1) * (x + 1) == x3c + q) by (nonlinear_arith)
        requires
            x2 == x * x,
            x3c == x2 * x,
            q == 3 * x2 + 3 * x + 1,
    ;
    // Expand the three partial products monomial by monomial.
    assert(x3c * bu == x5 + 5 * x4y + 10 * x3y2 + 2 * x4 + 5 * x3y + x3c) by (nonlinear_arith)
        requires
            bu == x2 + 5 * xy + 10 * y2 + 2 * x + 5 * y + 1,
            x3c * x2 == x5,
            x3c * xy == x4y,
            x3c * y2 == x3y2,
            x3c * x == x4,
            x3c * y == x3y,
    ;
    assert(q * bu == 3 * x4 + 15 * x3y + 30 * x2y2 + 9 * x3c + 30 * x2y + 10 * x2 + 30 * xy2 + 20
        * xy + 5 * x + 10 * y2 + 5 * y + 1) by (nonlinear_arith)
        requires
            q == 3 * x2 + 3 * x + 1,
            bu == x2 + 5 * xy + 10 * y2 + 2 * x + 5 * y + 1,
            x2 * x2 == x4,
            x2 * xy == x3y,
            x2 * y2 == x2y2,
            x2 * x == x3c,
            x2 * y == x2y,
            x * x2 == x3c,
            x * xy == x2y,
            x * y2 == xy2,
            x * x == x2,
            x * y == xy,
    ;
    assert(x3c * bx == x5 + 5 * x4y + 5 * x4 + 10 * x3y2 + 20 * x3y + 10 * x3c) by (nonlinear_arith)
        requires
            bx == x2 + 5 * xy + 5 * x + 10 * y2 + 20 * y + 10,
            x3c * x2 == x5,
            x3c * xy == x4y,
            x3c * y2 == x3y2,
            x3c * x == x4,
            x3c * y == x3y,
    ;
    vstd::arithmetic::mul::lemma_mul_is_distributive_add_other_way(bu, x3c, q);
    // All the monomials are nonnegative, so the difference is positive.
    assert(x2y2 >= 0 && x2y >= 0 && x2 >= 0 && xy2 >= 0 && xy >= 0 && y2 >= 0) by (nonlinear_arith)
        requires
            x >= 0,
            y >= 0,
            x2 == x * x,
            y2 == y * y,
            xy == x * y,
            x2y == x2 * y,
            xy2 == x * y2,
            x2y2 == x2 * y2,
    ;
}

/// The smoother-step numerator is non-decreasing on [0, SCALE].
proof fn lemma_smoother_step_num_mono(a: int, b: int)
    requires
        0 <= a <= b <= sc(),
    ensures
        a * a * a * (a * (6 * a - 15 * sc()) + 10 * sc() * sc()) <= b * b * b * (b * (6 * b - 15
            * sc()) + 10 * sc() * sc()),
    decreases b - a,
{
    if a < b {
        lemma_smoother_step_num_mono(a, b - 1);
        lemma_smoother_step_num_step(b - 1);
    }
}

/// The sine approximation stays within [0, SCALE] on [0, SCALE/2].
proof fn lemma_sine_approx_bounds(a: int)
    requires
        0 <= a,
        2 * a <= sc(),
    ensures
        0 <= sine_approx(a) <= sc(),
{
    assert(sine_num(a) >= 0 && sine_num(a) * sc() >= 0 && sine_den(a) > 0 && sine_num(a) * sc()
        <= sc() * sine_den(a)) by (nonlinear_arith)
        requires
            0 <= a,
            2 * a <= sc(),
            sc() == 1000000,
    ;
    vstd::arithmetic::div_mod::lemma_div_is_ordered(
        sine_num(a) * sc(),
        sc() * sine_den(a),
        sine_den(a),
    );
    vstd::arithmetic::div_mod::lemma_div_multiples_vanish(sc(), sine_den(a));
    vstd::arithmetic::div_mod::lemma_div_pos_is_pos(sine_num(a) * sc(), sine_den(a));
}

/// The sine approximation is non-decreasing on [0, SCALE/2]: its numerator
/// grows with the argument while its denominator shrinks.
proof fn lemma_sine_approx_mono(a1: int, a2: int)
    requires
        0 <= a1 <= a2,
        2 * a2 <= sc(),
    ensures
        sine_approx(a1) <= sine_approx(a2),
{
    let p1 = a1 * (sc() - a1);
    let p2 = a2 * (sc() - a2);
    assert(0 <= p1 && p1 <= p2 && 4 * p2 <= sc() * sc()) by (nonlinear_arith)
        requires
            0 <= a1 <= a2,
            2 * a2 <= sc(),
            p1 == a1 * (sc() - a1),
            p2 == a2 * (sc() - a2),
    ;
    assert((16 * p1 * sc()) * (5 * sc() * sc() - 4 * p2) <= (16 * p2 * sc()) * (5 * sc() * sc() - 4
        * p1) && 0 <= 16 * p1 * sc() && 0 <= 16 * p2 * sc() && 0 < 5 * sc() * sc() - 4 * p1 && 0 < 5
        * sc() * sc() - 4 * p2) by (nonlinear_arith)
        requires
            0 <= p1 <= p2,
            4 * p2 <= sc() * sc(),
            sc() == 1000000,
    ;
    lemma_div_frac_mono(sine_num(a1) * sc(), sine_den(a1), sine_num(a2) * sc(), sine_den(a2));
}

/// The quadratic 2^v interpolant is non-decreasing on [0, SCALE].
proof fn lemma_exp2_interp_mono(v1: int, v2: int)
    requires
        0 <= v1 <= v2 <= sc(),
    ensures
        exp2_interp(v1) <= exp2_interp(v2),
{
    assert((EXP2_B as int) * v1 <= (EXP2_B as int) * v2 && 0 <= (EXP2_B as int) * v1)
        by (nonlinear_arith)
        requires
            0 <= v1 <= v2,
    ;
    vstd::arithmetic::div_mod::lemma_div_is_ordered(
        (EXP2_B as int) * v1,
        (EXP2_B as int) * v2,
        sc(),
    );
    let i1 = (EXP2_A as int) + ((EXP2_B as int) * v1) / sc();
    let i2 = (EXP2_A as int) + ((EXP2_B as int) * v2) / sc();
    vstd::arithmetic::div_mod::lemma_div_pos_is_pos((EXP2_B as int) * v1, sc());
    assert(v1 * i1 <= v2 * i2) by (nonlinear_arith)
        requires
            0 <= v1 <= v2,
            0 <= i1 <= i2,
    ;
    vstd::arithmetic::div_mod::lemma_div_is_ordered(v1 * i1, v2 * i2, sc());
}

/// One backward step of `expo_step`: decreasing n cannot decrease the value.
proof fn lemma_expo_step_dec(n: int)
    requires
        1 <= n <= 10 * sc(),
    ensures
        expo_step(n) <= expo_step(n - 1),
{
    let q = n / sc();
    let r = n % sc();
    vstd::arithmetic::div_mod::lemma_fundamental_div_mod(n, sc());
    vstd::arithmetic::div_mod::lemma_mod_division_less_than_divisor(n, sc());
    vstd::arithmetic::div_mod::lemma_div_pos_is_pos(n, sc());
    if r >= 1 {
        vstd::arithmetic::div_mod::lemma_fundamental_div_mod_converse(n - 1, sc(), q, r - 1);
        let d = vstd::arithmetic::power2::pow2((q + 2) as nat) as int;
        vstd::arithmetic::power2::lemma_pow2_pos((q + 2) as nat);
        lemma_exp2_interp_mono(sc() - r, sc() - r + 1);
        vstd::arithmetic::div_mod::lemma_div_is_ordered(
            exp2_interp(sc() - r),
            exp2_interp(sc() - (r - 1)),
            d,
        );
    } else {
        // n is a whole number of octaves: the value continues exactly,
        // since the interpolant is SCALE at 0 and 2 SCALE at SCALE.
        assert(q >= 1) by (nonlinear_arith)
            requires
                n == sc() * q + r,
                r == 0,
                n >= 1,
                q >= 0,
                sc() == 1000000,
        ;
        vstd::arithmetic::div_mod::lemma_fundamental_div_mod_converse(n - 1, sc(), q - 1, sc() - 1);
        // exp2_interp(sc()) == 2 * sc() and exp2_interp(1) == sc().
        vstd::arithmetic::div_mod::lemma_div_multiples_vanish(EXP2_B as int, sc());
        assert(((EXP2_B as int) * sc()) / sc() == EXP2_B as int) by {
            vstd::arithmetic::mul::lemma_mul_is_commutative(EXP2_B as int, sc());
        }
        assert(exp2_interp(sc()) == 2 * sc()) by {
            assert((sc() * ((EXP2_A as int) + (EXP2_B as int))) / sc() == sc()) by {
                assert(sc() * ((EXP2_A as int) + (EXP2_B as int)) == sc() * sc());
                assert((sc() * sc()) / sc() == sc()) by {
                    vstd::arithmetic::div_mod::lemma_div_multiples_vanish(sc(), sc());
                }
            }
        }
        assert(exp2_interp(1) == sc()) by {
            assert(((EXP2_B as int) * 1) / sc() == 0);
            assert((1 * (EXP2_A as int)) / sc() == 0);
        }
        let dlow = vstd::arithmetic::power2::pow2((q + 1) as nat) as int;
        vstd::arithmetic::power2::lemma_pow2_pos((q + 1) as nat);
        assert(vstd::arithmetic::power2::pow2((q + 2) as nat) == 2 * vstd::arithmetic::power2::pow2(
            (q + 1) as nat,
        )) by {
            vstd::arithmetic::power2::lemma_pow2_adds(1, (q + 1) as nat);
            assert(vstd::arithmetic::power2::pow2(1) == 2) by {
                vstd::arithmetic::power2::lemma2_to64();
            }
        }
        assert((2 * sc()) / (2 * dlow) == sc() / dlow) by {
            vstd::arithmetic::div_mod::lemma_div_denominator(2 * sc(), 2, dlow);
        }
        assert(expo_step(n) == sc() / dlow);
        assert(expo_step(n - 1) == sc() / dlow);
    }
}

/// `expo_step` is non-increasing on [0, 10 SCALE].
proof fn lemma_expo_step_antimono(n1: int, n2: int)
    requires
        0 <= n1 <= n2 <= 10 * sc(),
    ensures
        expo_step(n2) <= expo_step(n1),
    decreases n2 - n1,
{
    if n1 < n2 {
        lemma_expo_step_antimono(n1, n2 - 1);
        lemma_expo_step_dec(n2);
    }
}

/// The lower exponential branch is non-decreasing on [0, SCALE/2].
proof fn lemma_expo_low_mono(x1: int, x2: int)
    requires
        0 <= x1 <= x2,
        2 * x2 <= sc(),
    ensures
        expo_low(x1) <= expo_low(x2),
{
    lemma_expo_step_antimono(10 * sc() - 20 * x2, 10 * sc() - 20 * x1);
}

/// The exponential curve stays within [0, SCALE].
proof fn lemma_expo_curve_range(x: int)
    requires
        0 <= x <= sc(),
    ensures
        0 <= expo_curve(x) <= sc(),
{
    if 0 < x < sc() {
        if 2 * x <= sc() {
            lemma_expo_low_le_half(x);
        } else {
            lemma_expo_low_le_half(sc() - x);
        }
    }
}

/// Both endpoints of every curve are exact: 0 maps to 0 and SCALE to SCALE.
proof fn lemma_curve_endpoints(p: AccelerationProfile)
    ensures
        curve(p, 0) == 0,
        curve(p, sc()) == sc(),
{
    match p {
        AccelerationProfile::Linear => {},
        AccelerationProfile::SmoothStep => {
            assert(0 * 0 * (3 * sc() - 2 * 0) == 0 && sc() * sc() * (3 * sc() - 2 * sc())
                == 1000000000000000000 && sc() * sc() == 1000000000000) by (nonlinear_arith)
                requires
                    sc() == 1000000,
            ;
            assert(0int / 1000000000000int == 0);
            assert(1000000000000000000int / 1000000000000int == 1000000);
        },
        AccelerationProfile::SmootherStep => {
            assert(0 * 0 * 0 * (0 * (6 * 0 - 15 * sc()) + 10 * sc() * sc()) == 0 && sc() * sc()
                * sc() * (sc() * (6 * sc() - 15 * sc()) + 10 * sc() * sc())
                == 1000000000000000000000000000000 && sc() * sc() * sc() * sc()
                == 1000000000000000000000000) by (nonlinear_arith)
                requires
                    sc() == 1000000,
            ;
            assert(0int / 1000000000000000000000000int == 0);
            assert(1000000000000000000000000000000int / 1000000000000000000000000int == 1000000);
        },
        AccelerationProfile::EaseIn => {
            assert(0 * 0 == 0 && sc() * sc() == 1000000000000) by (nonlinear_arith)
                requires
                    sc() == 1000000,
            ;
            assert(0int / 1000000int == 0);
            assert(1000000000000int / 1000000int == 1000000);
        },
        AccelerationProfile::EaseInOut => {
            assert(2 * 0 * 0 == 0 && (2 * sc() - 2 * sc()) * (2 * sc() - 2 * sc()) == 0)
                by (nonlinear_arith)
                requires
                    sc() == 1000000,
            ;
            assert(0int / 1000000int == 0);
            assert(0int / 2000000int == 0);
        },
        AccelerationProfile::EaseOut => {
            assert(sc() * sc() - (sc() - 0) * (sc() - 0) == 0 && sc() * sc() - (sc() - sc()) * (sc()
                - sc()) == 1000000000000) by (nonlinear_arith)
                requires
                    sc() == 1000000,
            ;
            assert(0int / 1000000int == 0);
            assert(1000000000000int / 1000000int == 1000000);
        },
        AccelerationProfile::SinusoidalEasing => {
            assert(sine_num(sc() / 2) == 4000000000000 && sine_den(sc() / 2) == 4000000000000
                && sine_num(sc() / 2) * sc() == 4000000000000000000) by (nonlinear_arith)
                requires
                    sc() == 1000000,
            ;
            assert(4000000000000000000int / 4000000000000int == 1000000);
            assert(sine_approx(sc() / 2) == 1000000);
            assert(sinusoidal_curve(0) == (sc() - 1000000) / 2);
            assert(0int / 2int == 0);
            assert(sinusoidal_curve(sc()) == (sc() + 1000000) / 2);
            assert(2000000int / 2int == 1000000);
        },
        AccelerationProfile::EaseInOutExpo => {},
    }
}

/// Every curve is monotonic non-decreasing on [0, SCALE].
pub proof fn lemma_curve_monotonic(p: AccelerationProfile, a: int, b: int)
    requires
        0 <= a <= b <= sc(),
    ensures
        curve(p, a) <= curve(p, b),
{
    match p {
        AccelerationProfile::Linear => {},
        AccelerationProfile::SmoothStep => {
            lemma_smooth_step_num_mono(a, b);
            vstd::arithmetic::div_mod::lemma_div_is_ordered(
                a * a * (3 * sc() - 2 * a),
                b * b * (3 * sc() - 2 * b),
                sc() * sc(),
            );
        },
        AccelerationProfile::SmootherStep => {
            lemma_smoother_step_num_mono(a, b);
            vstd::arithmetic::div_mod::lemma_div_is_ordered(
                a * a * a * (a * (6 * a - 15 * sc()) + 10 * sc() * sc()),
                b * b * b * (b * (6 * b - 15 * sc()) + 10 * sc() * sc()),
                sc() * sc() * sc() * sc(),
            );
        },
        AccelerationProfile::EaseIn => {
            lemma_sq_mono(a, b);
            vstd::arithmetic::div_mod::lemma_div_is_ordered(a * a, b * b, sc());
        },
        AccelerationProfile::EaseInOut => {
            lemma_ease_in_out_monotonic(a, b);
        },
        AccelerationProfile::EaseOut => {
            lemma_sq_mono(sc() - b, sc() - a);
            vstd::arithmetic::div_mod::lemma_div_is_ordered(
                sc() * sc() - (sc() - a) * (sc() - a),
                sc() * sc() - (sc() - b) * (sc() - b),
                sc(),
            );
        },
        AccelerationProfile::SinusoidalEasing => {
            lemma_sinusoidal_monotonic(a, b);
        },
        AccelerationProfile::EaseInOutExpo => {
            lemma_expo_monotonic(a, b);
        },
    }
}

/// Monotonicity of the piecewise quadratic ease-in-out curve.
proof fn lemma_ease_in_out_monotonic(a: int, b: int)
    requires
        0 <= a <= b <= sc(),
    ensures
        ease_in_out_curve(a) <= ease_in_out_curve(b),
{
    if 2 * b < sc() {
        lemma_sq_mono(a, b);
        vstd::arithmetic::div_mod::lemma_div_is_ordered(2 * (a * a), 2 * (b * b), sc());
        assert(2 * (a * a) == 2 * a * a && 2 * (b * b) == 2 * b * b) by (nonlinear_arith);
    } else if 2 * a >= sc() {
        lemma_sq_mono(2 * sc() - 2 * b, 2 * sc() - 2 * a);
        vstd::arithmetic::div_mod::lemma_div_is_ordered(
            (2 * sc() - 2 * b) * (2 * sc() - 2 * b),
            (2 * sc() - 2 * a) * (2 * sc() - 2 * a),
            2 * sc(),
        );
    } else {
        // a is on the lower branch and b on the upper: both sides of
        // the junction value SCALE/2 bound the two branch values.
        assert(2 * a * a <= 500000000000int) by (nonlinear_arith)
            requires
                0 <= a,
                2 * a < sc(),
                sc() == 1000000,
        ;
        vstd::arithmetic::div_mod::lemma_div_is_ordered(2 * a * a, 500000000000int, sc());
        assert(500000000000int / 1000000int == 500000);
        lemma_sq_mono(2 * sc() - 2 * b, sc());
        vstd::arithmetic::div_mod::lemma_div_is_ordered(
            (2 * sc() - 2 * b) * (2 * sc() - 2 * b),
            sc() * sc(),
            2 * sc(),
        );
        assert(1000000000000int / 2000000int == 500000);
    }
}

/// Monotonicity of the sinusoidal curve, through the rational sine
/// approximation.
proof fn lemma_sinusoidal_monotonic(a: int, b: int)
    requires
        0 <= a <= b <= sc(),
    ensures
        sinusoidal_curve(a) <= sinusoidal_curve(b),
{
    if 2 * b <= sc() {
        lemma_sine_approx_mono(sc() / 2 - b, sc() / 2 - a);
        vstd::arithmetic::div_mod::lemma_div_is_ordered(
            sc() - sine_approx(sc() / 2 - a),
            sc() - sine_approx(sc() / 2 - b),
            2,
        );
    } else if 2 * a > sc() {
        lemma_sine_approx_mono(a - sc() / 2, b - sc() / 2);
        vstd::arithmetic::div_mod::lemma_div_is_ordered(
            sc() + sine_approx(a - sc() / 2),
            sc() + sine_approx(b - sc() / 2),
            2,
        );
    } else {
        // Across the junction both branch values straddle SCALE/2.
        lemma_sine_approx_bounds(sc() / 2 - a);
        lemma_sine_approx_bounds(b - sc() / 2);
        vstd::arithmetic::div_mod::lemma_div_is_ordered(sc() - sine_approx(sc() / 2 - a), sc(), 2);
        vstd::arithmetic::div_mod::lemma_div_is_ordered(sc(), sc() + sine_approx(b - sc() / 2), 2);
    }
}

/// Monotonicity of the piecewise exponential curve.
proof fn lemma_expo_monotonic(a: int, b: int)
    requires
        0 <= a <= b <= sc(),
    ensures
        expo_curve(a) <= expo_curve(b),
{
    if a == 0 || a == b {
        lemma_expo_curve_range(b);
    } else if b == sc() {
        lemma_expo_curve_range(a);
    } else if 2 * b <= sc() {
        lemma_expo_low_mono(a, b);
    } else if 2 * a > sc() {
        lemma_expo_low_mono(sc() - b, sc() - a);
    } else {
        // Across the junction both branch values straddle SCALE/2.
        lemma_expo_low_le_half(a);
        lemma_expo_low_le_half(sc() - b);
    }
}

/// Every curve stays within [0, SCALE] on [0, SCALE].
pub proof fn lemma_curve_range(p: AccelerationProfile, x: int)
    requires
        0 <= x <= sc(),
    ensures
        0 <= curve(p, x) <= sc(),
{
    lemma_curve_endpoints(p);
    lemma_curve_monotonic(p, 0, x);
    lemma_curve_monotonic(p, x, sc());
}

/// Every profile fixes the endpoints: zero input maps to zero output,
/// and full deflection maps to full deflection, in both directions.
pub proof fn lemma_shape_endpoints(p: AccelerationProfile)
    ensures
        shape_spec(0, p) == 0,
        shape_spec(sc(), p) == sc(),
        shape_spec(-sc(), p) == -sc(),
{
    lemma_curve_endpoints(p);
}

/// Shaping is odd: the sign of the input is preserved and the curve acts
/// on the magnitude only.
pub proof fn lemma_shape_odd(p: AccelerationProfile, v: int)
    requires
        -sc() <= v <= sc(),
    ensures
        shape_spec(-v, p) == -shape_spec(v, p),
{
    lemma_curve_endpoints(p);
}

/// Shaping is monotonic non-decreasing across the whole signed range.
pub proof fn lemma_shape_monotonic(p: AccelerationProfile, a: int, b: int)
    requires
        -sc() <= a <= b <= sc(),
    ensures
        shape_spec(a, p) <= shape_spec(b, p),
{
    if 0 <= a {
        lemma_curve_monotonic(p, a, b);
    } else if b < 0 {
        lemma_curve_monotonic(p, -b, -a);
    } else {
        lemma_curve_range(p, -a);
        lemma_curve_range(p, b);
    }
}

/// Shaped values stay within the signed fixed-point range.
pub proof fn lemma_shape_range(p: AccelerationProfile, v: int)
    requires
        -sc() <= v <= sc(),
    ensures
        -sc() <= shape_spec(v, p) <= sc(),
{
    if v >= 0 {
        lemma_curve_range(p, v);
    } else {
        lemma_curve_range(p, -v);
    }
}

/// The shaped magnitude of nonnegative `x` under `profile`.
fn curve_value(x: i64, profile: &AccelerationProfile) -> (r: i64)
    requires
        0 <= x <= SCALE,
    ensures
        r == curve(*profile, x as int),
        r >= 0,
{
    match profile {
        AccelerationProfile::Linear => x,
        AccelerationProfile::SmoothStep => smooth_step_value(x),
        AccelerationProfile::SmootherStep => smoother_step_value(x),
        AccelerationProfile::EaseIn => ease_in_value(x),
        AccelerationProfile::EaseInOut => ease_in_out_value(x),
        AccelerationProfile::EaseOut => ease_out_value(x),
        AccelerationProfile::SinusoidalEasing => sinusoidal_value(x),
        AccelerationProfile::EaseInOutExpo => expo_value(x),
    }
}

} // verus!
