//! Whether two segments meet.
//!
//! The coordinates are whole numbers, so every comparison below is exact: no
//! rounding takes part in deciding whether two segments meet.

use crate::arith::lemma_product_of_differences;
use crate::geometry::{Point, Vector2};
use vstd::prelude::*;

verus! {

/// The common denominator of the two intersection parameters of the lines
/// through `a1, a2` and through `b1, b2`. It is zero exactly when the two
/// directions are parallel.
pub open spec fn denominator(a1: Point, a2: Point, b1: Point, b2: Point) -> int {
    (b2.y - b1.y) * (a2.x - a1.x) - (b2.x - b1.x) * (a2.y - a1.y)
}

/// The numerator of the parameter along the first segment: the lines meet at
/// `a1 + (numerator_a / denominator) * (a2 - a1)`.
pub open spec fn numerator_a(a1: Point, a2: Point, b1: Point, b2: Point) -> int {
    (b2.x - b1.x) * (a1.y - b1.y) - (b2.y - b1.y) * (a1.x - b1.x)
}

/// The numerator of the parameter along the second segment: the lines meet at
/// `b1 + (numerator_b / denominator) * (b2 - b1)`.
pub open spec fn numerator_b(a1: Point, a2: Point, b1: Point, b2: Point) -> int {
    (a2.x - a1.x) * (a1.y - b1.y) - (a2.y - a1.y) * (a1.x - b1.x)
}

/// Whether the fraction `n / d` is defined and lies in the closed interval
/// from 0 to 1.
pub open spec fn in_unit_interval(n: int, d: int) -> bool {
    (d > 0 && 0 <= n <= d) || (d < 0 && d <= n <= 0)
}

/// Whether the segment from `a1` to `a2` meets the segment from `b1` to `b2`:
/// the two lines are not parallel and both intersection parameters lie in the
/// closed unit interval. Parallel segments, collinear ones included, never
/// meet.
pub open spec fn segments_meet(a1: Point, a2: Point, b1: Point, b2: Point) -> bool {
    let d = denominator(a1, a2, b1, b2);
    in_unit_interval(numerator_a(a1, a2, b1, b2), d) && in_unit_interval(
        numerator_b(a1, a2, b1, b2),
        d,
    )
}

/// The algebra behind exchanging the endpoints of the first segment: the
/// denominator changes sign, the first numerator drops by the denominator and
/// the second changes sign.
proof fn lemma_first_pair_exchanged(a1: Point, a2: Point, b1: Point, b2: Point)
    by (nonlinear_arith)
    ensures
        denominator(a2, a1, b1, b2) == -denominator(a1, a2, b1, b2),
        numerator_a(a2, a1, b1, b2) == numerator_a(a1, a2, b1, b2) - denominator(a1, a2, b1, b2),
        numerator_b(a2, a1, b1, b2) == -numerator_b(a1, a2, b1, b2),
{
}

/// The algebra behind exchanging the two segments: the denominator changes
/// sign and the numerators change places and sign.
proof fn lemma_segments_exchanged(a1: Point, a2: Point, b1: Point, b2: Point)
    by (nonlinear_arith)
    ensures
        denominator(b1, b2, a1, a2) == -denominator(a1, a2, b1, b2),
        numerator_a(b1, b2, a1, a2) == -numerator_b(a1, a2, b1, b2),
        numerator_b(b1, b2, a1, a2) == -numerator_a(a1, a2, b1, b2),
{
}

/// Whether two segments meet does not depend on the order in which either
/// segment's endpoints are given, nor on which of the two segments is named
/// first.
pub proof fn lemma_meet_is_symmetric(a1: Point, a2: Point, b1: Point, b2: Point)
    ensures
        segments_meet(a2, a1, b1, b2) == segments_meet(a1, a2, b1, b2),
        segments_meet(a1, a2, b2, b1) == segments_meet(a1, a2, b1, b2),
        segments_meet(a2, a1, b2, b1) == segments_meet(a1, a2, b1, b2),
        segments_meet(b1, b2, a1, a2) == segments_meet(a1, a2, b1, b2),
{
    lemma_first_pair_exchanged(a1, a2, b1, b2);
    lemma_segments_exchanged(a1, a2, b1, b2);
    assert(segments_meet(a2, a1, b1, b2) == segments_meet(a1, a2, b1, b2));
    assert(segments_meet(b1, b2, a1, a2) == segments_meet(a1, a2, b1, b2));
    // The second pair is the first pair of the exchanged segments.
    lemma_first_pair_exchanged(b1, b2, a1, a2);
    lemma_segments_exchanged(b2, b1, a1, a2);
    assert(segments_meet(a1, a2, b2, b1) == segments_meet(a1, a2, b1, b2));
    lemma_first_pair_exchanged(a1, a2, b2, b1);
}

/// Two segments with a common endpoint meet there, unless they are parallel:
/// a parameter of exactly 0 or 1 counts as inside.
pub proof fn lemma_shared_endpoint_meets(a1: Point, a2: Point, b1: Point, b2: Point)
    requires
        a1 == b1 || a1 == b2 || a2 == b1 || a2 == b2,
        denominator(a1, a2, b1, b2) != 0,
    ensures
        segments_meet(a1, a2, b1, b2),
{
    lemma_meet_is_symmetric(a1, a2, b1, b2);
    lemma_first_pair_exchanged(a1, a2, b1, b2);
    lemma_first_pair_exchanged(b1, b2, a1, a2);
    lemma_segments_exchanged(b2, b1, a1, a2);
    lemma_first_pair_exchanged(a1, a2, b2, b1);
    if a1 == b1 {
        lemma_common_start(a1, a2, b2);
    } else if a1 == b2 {
        lemma_common_start(a1, a2, b1);
    } else if a2 == b1 {
        lemma_common_start(a2, a1, b2);
    } else {
        lemma_common_start(a2, a1, b1);
    }
}

/// Two segments that start at the same point have both numerators zero.
proof fn lemma_common_start(p: Point, a: Point, b: Point)
    by (nonlinear_arith)
    ensures
        numerator_a(p, a, p, b) == 0,
        numerator_b(p, a, p, b) == 0,
{
}

/// Parallel segments never meet, whether or not they lie on one line; in
/// particular a segment does not meet itself, forwards or reversed.
pub proof fn lemma_parallel_never_meet(a1: Point, a2: Point, b1: Point, b2: Point)
    requires
        (a2.x - a1.x) * (b2.y - b1.y) == (a2.y - a1.y) * (b2.x - b1.x),
    ensures
        !segments_meet(a1, a2, b1, b2),
{
    assert(denominator(a1, a2, b1, b2) == 0) by (nonlinear_arith)
        requires
            (a2.x - a1.x) * (b2.y - b1.y) == (a2.y - a1.y) * (b2.x - b1.x),
    ;
}

/// A segment meets its own reversal exactly as it meets itself: not at all,
/// since the two are parallel.
pub proof fn lemma_reversed_self(a1: Point, a2: Point)
    ensures
        segments_meet(a1, a2, a2, a1) == segments_meet(a1, a2, a1, a2),
        !segments_meet(a1, a2, a1, a2),
{
    lemma_meet_is_symmetric(a1, a2, a1, a2);
    assert((a2.x - a1.x) * (a2.y - a1.y) == (a2.y - a1.y) * (a2.x - a1.x)) by (nonlinear_arith);
    lemma_parallel_never_meet(a1, a2, a1, a2);
}

/// A product of three factors does not depend on their order.
proof fn lemma_triple_product(a: int, b: int, c: int)
    by (nonlinear_arith)
    ensures
        (a * b) * c == (a * c) * b,
        (a * b) * c == (b * c) * a,
{
}

/// A cubic identity in six differences, on which the next lemma rests.
proof fn lemma_cubic_identity(p: int, q: int, r: int, s: int, g: int, h: int)
    ensures
        (s * p - r * q) * g + (r * h - s * g) * p == (p * h - q * g) * r,
        (s * p - r * q) * h + (r * h - s * g) * q == (p * h - q * g) * s,
{
    assert((s * p - r * q) * g == (s * p) * g - (r * q) * g) by (nonlinear_arith);
    assert((r * h - s * g) * p == (r * h) * p - (s * g) * p) by (nonlinear_arith);
    assert((p * h - q * g) * r == (p * h) * r - (q * g) * r) by (nonlinear_arith);
    lemma_triple_product(s, p, g);
    lemma_triple_product(r, h, p);
    assert(r * h == h * r && p * h == h * p) by (nonlinear_arith);
    lemma_triple_product(h, r, p);
    lemma_triple_product(r, q, g);
    assert((s * p - r * q) * h == (s * p) * h - (r * q) * h) by (nonlinear_arith);
    assert((r * h - s * g) * q == (r * h) * q - (s * g) * q) by (nonlinear_arith);
    assert((p * h - q * g) * s == (p * h) * s - (q * g) * s) by (nonlinear_arith);
    lemma_triple_product(s, p, h);
    assert(s * h == h * s) by (nonlinear_arith);
    lemma_triple_product(h, s, p);
    lemma_triple_product(r, h, q);
    lemma_triple_product(r, q, h);
    lemma_triple_product(s, g, q);
    assert(q * g == g * q && s * g == g * s) by (nonlinear_arith);
    lemma_triple_product(g, s, q);
}

/// The two parameters name one and the same point. Multiplied through by the
/// denominator, `a1 + u_a (a2 - a1) = b1 + u_b (b2 - b1)` reads as below, in
/// each coordinate.
pub proof fn lemma_parameters_name_common_point(a1: Point, a2: Point, b1: Point, b2: Point)
    ensures
        denominator(a1, a2, b1, b2) * (a1.x - b1.x) + numerator_a(a1, a2, b1, b2) * (a2.x - a1.x)
            == numerator_b(a1, a2, b1, b2) * (b2.x - b1.x),
        denominator(a1, a2, b1, b2) * (a1.y - b1.y) + numerator_a(a1, a2, b1, b2) * (a2.y - a1.y)
            == numerator_b(a1, a2, b1, b2) * (b2.y - b1.y),
{
    lemma_cubic_identity(
        a2.x - a1.x,
        a2.y - a1.y,
        b2.x - b1.x,
        b2.y - b1.y,
        a1.x - b1.x,
        a1.y - b1.y,
    );
}

/// `p * q - r * s` for four coordinate differences.
fn cross_of_differences(p: i64, q: i64, r: i64, s: i64) -> (c: i128)
    requires
        -0x1_0000_0000 < p < 0x1_0000_0000,
        -0x1_0000_0000 < q < 0x1_0000_0000,
        -0x1_0000_0000 < r < 0x1_0000_0000,
        -0x1_0000_0000 < s < 0x1_0000_0000,
    ensures
        c == p * q - r * s,
{
    proof {
        lemma_product_of_differences(p as int, q as int);
        lemma_product_of_differences(r as int, s as int);
    }
    (p as i128) * (q as i128) - (r as i128) * (s as i128)
}

/// Whether `n / d` lies in the closed unit interval, decided without dividing.
fn ratio_in_unit_interval(n: i128, d: i128) -> (inside: bool)
    ensures
        inside == in_unit_interval(n as int, d as int),
{
    if d > 0 {
        0 <= n && n <= d
    } else if d < 0 {
        d <= n && n <= 0
    } else {
        false
    }
}

/// Decides whether two segments meet.
///
/// Parallel segments are reported as not meeting; this is an explicit branch
/// on a zero denominator, not a by-product of a failed division.
pub fn segments_intersect(a1: Vector2, a2: Vector2, b1: Vector2, b2: Vector2) -> (hit: bool)
    ensures
        hit == segments_meet(a1@, a2@, b1@, b2@),
{
    let ax: i64 = a2.x as i64 - a1.x as i64;
    let ay: i64 = a2.y as i64 - a1.y as i64;
    let bx: i64 = b2.x as i64 - b1.x as i64;
    let by: i64 = b2.y as i64 - b1.y as i64;
    let gx: i64 = a1.x as i64 - b1.x as i64;
    let gy: i64 = a1.y as i64 - b1.y as i64;
    let d: i128 = cross_of_differences(by, ax, bx, ay);
    if d == 0 {
        return false;
    }
    let na: i128 = cross_of_differences(bx, gy, by, gx);
    let nb: i128 = cross_of_differences(ax, gy, ay, gx);
    ratio_in_unit_interval(na, d) && ratio_in_unit_interval(nb, d)
}

} // verus!
