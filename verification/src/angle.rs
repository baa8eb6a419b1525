//! Angles in hundredths of a degree, and their sine and cosine in fixed point.
//!
//! An angle is a whole number of hundredths of a degree; a full turn is
//! 36 000 of them. Sines and cosines are whole numbers of billionths. Both
//! are computed from a power series on the first eighth of a turn, in integer
//! arithmetic throughout, so the same angle gives the same value on every
//! machine.

use vstd::prelude::*;

verus! {

/// A full turn, in hundredths of a degree.
pub const FULL_TURN: i32 = 36_000;

/// Half a turn.
pub const HALF_TURN: i32 = 18_000;

/// A quarter of a turn.
pub const QUARTER_TURN: i32 = 9_000;

/// An eighth of a turn.
pub const EIGHTH_TURN: i32 = 4_500;

/// The fixed-point representation of the number one.
pub const ONE: i64 = 1_000_000_000;

/// The angle in `[0, FULL_TURN)` that differs from `angle` by whole turns.
pub open spec fn normalized(angle: int) -> int {
    angle % (FULL_TURN as int)
}

/// The fixed-point product of two fixed-point numbers, rounded down.
pub open spec fn scaled_product(a: int, b: int) -> int {
    a * b / (ONE as int)
}

/// The fixed-point radian measure of `r` hundredths of a degree, rounded
/// down: `r` times pi over 18 000.
pub open spec fn radians(r: int) -> int {
    r * 174_532_925_199 / 1_000_000
}

/// One step of a power series in nested form: `1 - z * t / divisor`, where
/// `z` is the square of the argument and `t` the value of the inner steps.
pub open spec fn series_step(z: int, t: int, divisor: int) -> int {
    ONE - scaled_product(z, t) / divisor
}

/// The sine of `x` radians, by the series `x - x^3/3! + x^5/5! - x^7/7! +
/// x^9/9!` in nested form.
pub open spec fn sine_series(x: int) -> int {
    let z = scaled_product(x, x);
    let t4 = series_step(z, ONE as int, 72);
    let t3 = series_step(z, t4, 42);
    let t2 = series_step(z, t3, 20);
    let t1 = series_step(z, t2, 6);
    scaled_product(x, t1)
}

/// The cosine of `x` radians, by the series `1 - x^2/2! + x^4/4! - x^6/6! +
/// x^8/8! - x^10/10!` in nested form.
pub open spec fn cosine_series(x: int) -> int {
    let z = scaled_product(x, x);
    let t5 = series_step(z, ONE as int, 90);
    let t4 = series_step(z, t5, 56);
    let t3 = series_step(z, t4, 30);
    let t2 = series_step(z, t3, 12);
    series_step(z, t2, 2)
}

/// The sine of an angle `r` of the first quarter turn, `0 <= r <=
/// QUARTER_TURN`. Up to an eighth of a turn it is the sine series; beyond, it
/// is the cosine series of the complement, so that the sine of a quarter turn
/// is exactly one.
#[verifier::opaque]
pub open spec fn quadrant_sine(r: int) -> int {
    if r <= EIGHTH_TURN {
        sine_series(radians(r))
    } else {
        cosine_series(radians(QUARTER_TURN - r))
    }
}

/// The sine of `angle`, in billionths.
#[verifier::opaque]
pub open spec fn sine(angle: int) -> int {
    let n = normalized(angle);
    let r = n % (QUARTER_TURN as int);
    if n < QUARTER_TURN {
        quadrant_sine(r)
    } else if n < HALF_TURN {
        quadrant_sine(QUARTER_TURN - r)
    } else if n < HALF_TURN + QUARTER_TURN {
        -quadrant_sine(r)
    } else {
        -quadrant_sine(QUARTER_TURN - r)
    }
}

/// The cosine of `angle`, in billionths: the sine a quarter turn further on.
pub open spec fn cosine(angle: int) -> int {
    sine(angle + QUARTER_TURN)
}

/// A product of two numbers between zero and one lies between zero and
/// either factor.
pub proof fn lemma_scaled_product_bounds(a: int, b: int)
    by (nonlinear_arith)
    requires
        0 <= a <= ONE,
        0 <= b <= ONE,
    ensures
        0 <= a * b <= ONE * ONE,
        0 <= scaled_product(a, b) <= a,
        scaled_product(a, b) <= b,
{
}

/// A series step on values between zero and one stays between zero and one.
pub proof fn lemma_series_step_bounds(z: int, t: int, divisor: int)
    requires
        0 <= z <= ONE,
        0 <= t <= ONE,
        divisor >= 1,
    ensures
        0 <= series_step(z, t, divisor) <= ONE,
{
    lemma_scaled_product_bounds(z, t);
    let p = scaled_product(z, t);
    assert(0 <= p / divisor <= p) by (nonlinear_arith)
        requires
            0 <= p,
            divisor >= 1,
    ;
}

/// The sine of an angle of the first quarter turn lies between zero and one.
pub proof fn lemma_quadrant_sine_bounds(r: int)
    requires
        0 <= r <= QUARTER_TURN,
    ensures
        0 <= quadrant_sine(r) <= ONE,
{
    reveal(quadrant_sine);
    let x = if r <= EIGHTH_TURN { radians(r) } else { radians(QUARTER_TURN - r) };
    assert(0 <= x <= ONE);
    lemma_scaled_product_bounds(x, x);
    let z = scaled_product(x, x);
    if r <= EIGHTH_TURN {
        lemma_series_step_bounds(z, ONE as int, 72);
        let t4 = series_step(z, ONE as int, 72);
        lemma_series_step_bounds(z, t4, 42);
        let t3 = series_step(z, t4, 42);
        lemma_series_step_bounds(z, t3, 20);
        let t2 = series_step(z, t3, 20);
        lemma_series_step_bounds(z, t2, 6);
        let t1 = series_step(z, t2, 6);
        lemma_scaled_product_bounds(x, t1);
    } else {
        lemma_series_step_bounds(z, ONE as int, 90);
        let t5 = series_step(z, ONE as int, 90);
        lemma_series_step_bounds(z, t5, 56);
        let t4 = series_step(z, t5, 56);
        lemma_series_step_bounds(z, t4, 30);
        let t3 = series_step(z, t4, 30);
        lemma_series_step_bounds(z, t3, 12);
        let t2 = series_step(z, t3, 12);
        lemma_series_step_bounds(z, t2, 2);
    }
}

/// Sine and cosine never exceed one in magnitude.
pub proof fn lemma_sine_cosine_bounds(angle: int)
    ensures
        -ONE <= sine(angle) <= ONE,
        -ONE <= cosine(angle) <= ONE,
{
    reveal(sine);
    let n = normalized(angle);
    let r = n % (QUARTER_TURN as int);
    lemma_quadrant_sine_bounds(r);
    lemma_quadrant_sine_bounds(QUARTER_TURN - r);
    let m = normalized(angle + QUARTER_TURN);
    let s = m % (QUARTER_TURN as int);
    lemma_quadrant_sine_bounds(s);
    lemma_quadrant_sine_bounds(QUARTER_TURN - s);
}

/// A quarter turn further on, the normal form moves to the next quarter and
/// keeps its place within it.
proof fn lemma_quarter_turn_further(angle: int)
    ensures
        normalized(angle + QUARTER_TURN) == (normalized(angle) + QUARTER_TURN) % (
        FULL_TURN as int),
        normalized(angle + QUARTER_TURN) % (QUARTER_TURN as int) == normalized(angle) % (
        QUARTER_TURN as int),
{
}

/// Angles that differ by whole turns have the same sine and the same cosine.
pub proof fn lemma_congruent_angles(a: int, b: int)
    requires
        normalized(a) == normalized(b),
    ensures
        sine(a) == sine(b),
        cosine(a) == cosine(b),
{
    reveal(sine);
    lemma_quarter_turn_further(a);
    lemma_quarter_turn_further(b);
}

/// Sine and cosine repeat after a full turn.
pub proof fn lemma_full_turn_period(angle: int)
    ensures
        sine(angle + FULL_TURN) == sine(angle),
        cosine(angle + FULL_TURN) == cosine(angle),
        normalized(angle + FULL_TURN) == normalized(angle),
{
    reveal(sine);
}

/// Sine and cosine depend on the angle only through its normal form.
pub proof fn lemma_normalized_angle(angle: int)
    ensures
        0 <= normalized(angle) < FULL_TURN,
        sine(normalized(angle)) == sine(angle),
        cosine(normalized(angle)) == cosine(angle),
{
    reveal(sine);
}

/// At the four quarter turns sine and cosine are exactly 0, 1 or -1.
pub proof fn lemma_quarter_turn_values()
    ensures
        sine(0) == 0 && cosine(0) == ONE,
        sine(QUARTER_TURN as int) == ONE && cosine(QUARTER_TURN as int) == 0,
        sine(HALF_TURN as int) == 0 && cosine(HALF_TURN as int) == -ONE,
        sine(HALF_TURN + QUARTER_TURN) == -ONE && cosine(HALF_TURN + QUARTER_TURN) == 0,
{
    reveal(sine);
    assert(radians(0) == 0);
    assert(scaled_product(0, 0) == 0);
    assert(sine_series(0) == 0) by {
        let t4 = series_step(0, ONE as int, 72);
        let t3 = series_step(0, t4, 42);
        let t2 = series_step(0, t3, 20);
        let t1 = series_step(0, t2, 6);
        assert(scaled_product(0, t1) == 0) by (nonlinear_arith);
    }
    assert(cosine_series(0) == ONE) by {
        assert(forall|t: int| #[trigger] scaled_product(0, t) == 0) by {
            assert forall|t: int| #[trigger] scaled_product(0, t) == 0 by {
                assert(0 * t == 0) by (nonlinear_arith);
            }
        }
    }
    assert(quadrant_sine(0) == 0 && quadrant_sine(QUARTER_TURN as int) == ONE) by {
        reveal(quadrant_sine);
    }
}

/// The fixed-point product of two numbers between zero and one.
fn scaled_mul(a: i64, b: i64) -> (p: i64)
    requires
        0 <= a <= ONE,
        0 <= b <= ONE,
    ensures
        p == scaled_product(a as int, b as int),
        0 <= p <= a,
        p <= b,
{
    proof {
        lemma_scaled_product_bounds(a as int, b as int);
    }
    a * b / ONE
}

/// One step of a power series in nested form.
fn series_term(z: i64, t: i64, divisor: i64) -> (next: i64)
    requires
        0 <= z <= ONE,
        0 <= t <= ONE,
        divisor >= 1,
    ensures
        next == series_step(z as int, t as int, divisor as int),
        0 <= next <= ONE,
{
    proof {
        lemma_series_step_bounds(z as int, t as int, divisor as int);
    }
    let p: i64 = scaled_mul(z, t);
    ONE - p / divisor
}

/// The sine of an angle of the first quarter turn.
fn first_quadrant_sine(r: i32) -> (s: i64)
    requires
        0 <= r <= QUARTER_TURN,
    ensures
        s == quadrant_sine(r as int),
        0 <= s <= ONE,
{
    proof {
        reveal(quadrant_sine);
    }
    if r <= EIGHTH_TURN {
        let x: i64 = (r as i64) * 174_532_925_199 / 1_000_000;
        let z: i64 = scaled_mul(x, x);
        let t4: i64 = series_term(z, ONE, 72);
        let t3: i64 = series_term(z, t4, 42);
        let t2: i64 = series_term(z, t3, 20);
        let t1: i64 = series_term(z, t2, 6);
        scaled_mul(x, t1)
    } else {
        let x: i64 = ((QUARTER_TURN - r) as i64) * 174_532_925_199 / 1_000_000;
        let z: i64 = scaled_mul(x, x);
        let t5: i64 = series_term(z, ONE, 90);
        let t4: i64 = series_term(z, t5, 56);
        let t3: i64 = series_term(z, t4, 30);
        let t2: i64 = series_term(z, t3, 12);
        series_term(z, t2, 2)
    }
}

/// Brings an angle into `[0, FULL_TURN)` by whole turns.
pub fn normalize(angle: i32) -> (n: i32)
    ensures
        n == normalized(angle as int),
        0 <= n < FULL_TURN,
{
    let m: i32 = angle % FULL_TURN;
    if m < 0 {
        m + FULL_TURN
    } else {
        m
    }
}

/// Brings an angle of any size into `[0, FULL_TURN)` by whole turns.
pub fn normalize_wide(angle: i64) -> (n: i32)
    ensures
        n == normalized(angle as int),
        0 <= n < FULL_TURN,
{
    let m: i64 = angle % (FULL_TURN as i64);
    if m < 0 {
        (m + FULL_TURN as i64) as i32
    } else {
        m as i32
    }
}

/// The sine and the cosine of `angle`, in that order.
pub fn sin_cos(angle: i32) -> (sc: (i64, i64))
    ensures
        sc.0 == sine(angle as int),
        sc.1 == cosine(angle as int),
        -ONE <= sc.0 <= ONE,
        -ONE <= sc.1 <= ONE,
{
    let n: i32 = normalize(angle);
    let r: i32 = n % QUARTER_TURN;
    proof {
        reveal(sine);
        lemma_quarter_turn_further(angle as int);
    }
    let rising: i64 = first_quadrant_sine(r);
    let falling: i64 = first_quadrant_sine(QUARTER_TURN - r);
    if n < QUARTER_TURN {
        (rising, falling)
    } else if n < HALF_TURN {
        (falling, -rising)
    } else if n < HALF_TURN + QUARTER_TURN {
        (-rising, -falling)
    } else {
        (-falling, rising)
    }
}

} // verus!
