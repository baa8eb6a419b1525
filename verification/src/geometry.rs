//! Points and displacements of the plane: turning them, placing the
//! landmarks of a shape, holding a velocity to a greatest length, and
//! measuring distances.
//!
//! Lengths are whole numbers of thousandths of a pixel.

use crate::angle::{
    cosine, lemma_congruent_angles, lemma_full_turn_period, lemma_quarter_turn_values,
    lemma_sine_cosine_bounds, normalized, sin_cos, sine, FULL_TURN, ONE,
};
use crate::arith::{
    ceil_sqrt, divide_towards_zero, lemma_ceil_sqrt_exists, lemma_coordinate_product,
    lemma_coordinate_square, lemma_product_of_differences, lemma_truncated_quotient_bound,
    magnitude, root_ceiling, rounded_quotient, truncated_quotient,
};
use vstd::prelude::*;

verus! {

/// How many length units make one pixel.
pub const UNITS_PER_PIXEL: i32 = 1000;

/// A point or displacement with mathematical integer coordinates.
pub struct Point {
    pub x: int,
    pub y: int,
}

/// A point or displacement as the machine holds it.
#[derive(Clone, Copy, Debug, PartialEq, Eq, Structural)]
pub struct Vector2 {
    pub x: i32,
    pub y: i32,
}

impl View for Vector2 {
    type V = Point;

    open spec fn view(&self) -> Point {
        Point { x: self.x as int, y: self.y as int }
    }
}

impl Point {
    /// The point reached from `self` by the displacement `d`.
    pub open spec fn translated(self, d: Point) -> Point {
        Point { x: self.x + d.x, y: self.y + d.y }
    }

    /// Whether both coordinates fit the machine representation.
    pub open spec fn representable(self) -> bool {
        i32::MIN <= self.x <= i32::MAX && i32::MIN <= self.y <= i32::MAX
    }
}

/// The square of the distance between `a` and `b`.
pub open spec fn distance_squared(a: Point, b: Point) -> int {
    (a.x - b.x) * (a.x - b.x) + (a.y - b.y) * (a.y - b.y)
}

/// The displacement `v` turned by `angle` about the origin: the rotation
/// matrix with columns `(cos, sin)` and `(-sin, cos)` applied to `v`, each
/// coordinate rounded to the nearest unit. With the y axis pointing down the
/// screen, a positive angle turns clockwise as seen by the player.
pub open spec fn rotated(v: Point, angle: int) -> Point {
    Point {
        x: rounded_quotient(cosine(angle) * v.x - sine(angle) * v.y, ONE as int),
        y: rounded_quotient(sine(angle) * v.x + cosine(angle) * v.y, ONE as int),
    }
}

/// A product with a sine or cosine is no larger than the bound on the other
/// factor, scaled by one.
proof fn lemma_trig_product_bound(t: int, c: int, m: int)
    by (nonlinear_arith)
    requires
        -ONE <= t <= ONE,
        -m <= c <= m,
    ensures
        -1_000_000_000 * m <= t * c <= 1_000_000_000 * m,
{
}

/// A sum of two such products, rounded to units, is no larger than the sum
/// of the two bounds.
proof fn lemma_rounded_sum_bound(p: int, q: int, mp: int, mq: int)
    requires
        -1_000_000_000 * mp <= p <= 1_000_000_000 * mp,
        -1_000_000_000 * mq <= q <= 1_000_000_000 * mq,
    ensures
        -(mp + mq) <= rounded_quotient(p + q, ONE as int) <= mp + mq,
        -(mp + mq) <= rounded_quotient(p - q, ONE as int) <= mp + mq,
{
}

/// Turning a displacement moves neither coordinate further from zero than
/// the sum of the magnitudes of its coordinates.
pub proof fn lemma_rotated_bounds(v: Point, angle: int)
    ensures
        magnitude(rotated(v, angle).x) <= magnitude(v.x) + magnitude(v.y),
        magnitude(rotated(v, angle).y) <= magnitude(v.x) + magnitude(v.y),
{
    let mx = magnitude(v.x);
    let my = magnitude(v.y);
    lemma_sine_cosine_bounds(angle);
    lemma_trig_product_bound(cosine(angle), v.x, mx);
    lemma_trig_product_bound(sine(angle), v.y, my);
    lemma_trig_product_bound(sine(angle), v.x, mx);
    lemma_trig_product_bound(cosine(angle), v.y, my);
    lemma_rounded_sum_bound(cosine(angle) * v.x, sine(angle) * v.y, mx, my);
    lemma_rounded_sum_bound(sine(angle) * v.x, cosine(angle) * v.y, mx, my);
}

/// Turning by a further full turn changes nothing.
pub proof fn lemma_rotated_full_turn(v: Point, angle: int)
    ensures
        rotated(v, angle + FULL_TURN) == rotated(v, angle),
{
    lemma_full_turn_period(angle);
}

/// Turning by angles that differ by whole turns gives the same.
pub proof fn lemma_rotated_congruent(v: Point, a: int, b: int)
    requires
        normalized(a) == normalized(b),
    ensures
        rotated(v, a) == rotated(v, b),
{
    lemma_congruent_angles(a, b);
}

/// Turning by no angle at all changes nothing, exactly.
pub proof fn lemma_rotated_by_zero(v: Point)
    ensures
        rotated(v, 0) == v,
{
    lemma_quarter_turn_values();
    assert(0 * v.x == 0 && 0 * v.y == 0) by (nonlinear_arith);
}

/// `n` divided by one in fixed point, rounded to the nearest whole number.
fn round_to_units(n: i64) -> (q: i64)
    requires
        -9_000_000_000_000_000_000 <= n <= 9_000_000_000_000_000_000,
    ensures
        q == rounded_quotient(n as int, ONE as int),
{
    if n >= 0 {
        (n + ONE / 2) / ONE
    } else {
        -((-n + ONE / 2) / ONE)
    }
}

/// Turns the displacement `v` by `angle` about the origin.
pub fn rotate(v: Vector2, angle: i32) -> (r: Vector2)
    requires
        rotated(v@, angle as int).representable(),
    ensures
        r@ == rotated(v@, angle as int),
{
    let sc: (i64, i64) = sin_cos(angle);
    let s: i64 = sc.0;
    let c: i64 = sc.1;
    let x: i64 = v.x as i64;
    let y: i64 = v.y as i64;
    proof {
        lemma_trig_product_bound(c as int, x as int, 0x8000_0000);
        lemma_trig_product_bound(s as int, y as int, 0x8000_0000);
        lemma_trig_product_bound(s as int, x as int, 0x8000_0000);
        lemma_trig_product_bound(c as int, y as int, 0x8000_0000);
    }
    let rx: i64 = round_to_units(c * x - s * y);
    let ry: i64 = round_to_units(s * x + c * y);
    Vector2 { x: rx as i32, y: ry as i32 }
}

/// The world position of a landmark of a shape: the local `offset` turned by
/// the shape's rotation and carried to the shape's middle.
pub open spec fn placed(middle: Point, rot: int, offset: Point) -> Point {
    middle.translated(rotated(offset, rot))
}

/// A landmark lies no further from the middle, in either coordinate, than
/// the sum of the magnitudes of its offset's coordinates.
pub proof fn lemma_placed_bounds(middle: Point, rot: int, offset: Point)
    ensures
        magnitude(placed(middle, rot, offset).x - middle.x) <= magnitude(offset.x) + magnitude(
            offset.y,
        ),
        magnitude(placed(middle, rot, offset).y - middle.y) <= magnitude(offset.x) + magnitude(
            offset.y,
        ),
{
    lemma_rotated_bounds(offset, rot);
}

/// A landmark is in the same place at a rotation and a full turn further on.
pub proof fn lemma_placed_full_turn(middle: Point, rot: int, offset: Point)
    ensures
        placed(middle, rot + FULL_TURN, offset) == placed(middle, rot, offset),
{
    lemma_rotated_full_turn(offset, rot);
}

/// A landmark is in the same place at rotations that differ by whole turns.
pub proof fn lemma_placed_congruent(middle: Point, a: int, b: int, offset: Point)
    requires
        normalized(a) == normalized(b),
    ensures
        placed(middle, a, offset) == placed(middle, b, offset),
{
    lemma_rotated_congruent(offset, a, b);
}

/// Places a landmark of a shape in the world.
pub fn place(middle: Vector2, rot: i32, offset: Vector2) -> (r: Vector2)
    requires
        magnitude(offset@.x) + magnitude(offset@.y) <= i32::MAX,
        placed(middle@, rot as int, offset@).representable(),
    ensures
        r@ == placed(middle@, rot as int, offset@),
{
    proof {
        lemma_rotated_bounds(offset@, rot as int);
    }
    let turned: Vector2 = rotate(offset, rot);
    let x: i64 = middle.x as i64 + turned.x as i64;
    let y: i64 = middle.y as i64 + turned.y as i64;
    Vector2 { x: x as i32, y: y as i32 }
}

/// The square of the length of the displacement `v`.
pub open spec fn length_squared(v: Point) -> int {
    v.x * v.x + v.y * v.y
}

/// The displacement `v` held to a length of at most `limit`: `v` itself
/// where it is no longer than that, else `v` scaled by `limit` over its
/// length. The length is rounded up and each quotient towards zero, so the
/// result never comes out longer than `limit`.
pub open spec fn clamped(v: Point, limit: int) -> Point {
    if length_squared(v) <= limit * limit {
        v
    } else {
        let len = ceil_sqrt(length_squared(v));
        Point {
            x: truncated_quotient(v.x * limit, len),
            y: truncated_quotient(v.y * limit, len),
        }
    }
}

/// If `a * len <= x * limit` and `b * len <= y * limit` for numbers that are
/// not negative, and `x^2 + y^2 <= len^2`, then `a^2 + b^2 <= limit^2`.
proof fn lemma_scaled_pair_bound(a: int, b: int, x: int, y: int, limit: int, len: int)
    by (nonlinear_arith)
    requires
        0 <= a,
        0 <= b,
        0 <= x,
        0 <= y,
        0 <= limit,
        0 < len,
        a * len <= x * limit,
        b * len <= y * limit,
        x * x + y * y <= len * len,
    ensures
        a * a + b * b <= limit * limit,
{
    assert((a * len) * (a * len) <= (x * limit) * (x * limit));
    assert((b * len) * (b * len) <= (y * limit) * (y * limit));
    assert((a * a + b * b) * (len * len) == (a * len) * (a * len) + (b * len) * (b * len));
    assert((x * limit) * (x * limit) + (y * limit) * (y * limit) == (x * x + y * y) * (limit
        * limit));
    assert((x * x + y * y) * (limit * limit) <= (len * len) * (limit * limit));
    assert((a * a + b * b) * (len * len) <= (limit * limit) * (len * len));
}

/// A clamped displacement is no longer than the limit.
pub proof fn lemma_clamped_length(v: Point, limit: int)
    requires
        limit >= 0,
    ensures
        length_squared(clamped(v, limit)) <= limit * limit,
{
    let s = length_squared(v);
    if s > limit * limit {
        lemma_ceil_sqrt_exists(s);
        let len = ceil_sqrt(s);
        assert(limit * limit >= 0) by (nonlinear_arith);
        assert(len > 0) by (nonlinear_arith)
            requires
                len >= 0,
                len * len >= s,
                s > 0,
        ;
        let c = clamped(v, limit);
        lemma_truncated_quotient_bound(v.x * limit, len);
        lemma_truncated_quotient_bound(v.y * limit, len);
        assert(magnitude(v.x * limit) == magnitude(v.x) * limit) by (nonlinear_arith)
            requires
                limit >= 0,
        ;
        assert(magnitude(v.y * limit) == magnitude(v.y) * limit) by (nonlinear_arith)
            requires
                limit >= 0,
        ;
        assert(magnitude(v.x) * magnitude(v.x) == v.x * v.x) by (nonlinear_arith);
        assert(magnitude(v.y) * magnitude(v.y) == v.y * v.y) by (nonlinear_arith);
        lemma_scaled_pair_bound(
            magnitude(c.x),
            magnitude(c.y),
            magnitude(v.x),
            magnitude(v.y),
            limit,
            len,
        );
        assert(magnitude(c.x) * magnitude(c.x) == c.x * c.x) by (nonlinear_arith);
        assert(magnitude(c.y) * magnitude(c.y) == c.y * c.y) by (nonlinear_arith);
    }
}

/// Scaling by a limit over a longer length brings a coordinate no further
/// from zero.
proof fn lemma_scaled_coordinate(c: int, limit: int, len: int)
    requires
        0 <= limit,
        len > 0,
        len * len > limit * limit,
    ensures
        magnitude(truncated_quotient(c * limit, len)) <= magnitude(c),
        c >= 0 ==> 0 <= truncated_quotient(c * limit, len) <= c,
        c <= 0 ==> c <= truncated_quotient(c * limit, len) <= 0,
{
    lemma_truncated_quotient_bound(c * limit, len);
    assert(c >= 0 ==> c * limit >= 0) by (nonlinear_arith)
        requires
            limit >= 0,
    ;
    assert(c <= 0 ==> c * limit <= 0) by (nonlinear_arith)
        requires
            limit >= 0,
    ;
    let q = magnitude(truncated_quotient(c * limit, len));
    let m = magnitude(c);
    assert(limit < len) by (nonlinear_arith)
        requires
            0 <= limit,
            len > 0,
            len * len > limit * limit,
    ;
    assert(magnitude(c * limit) == m * limit) by (nonlinear_arith)
        requires
            limit >= 0,
            m == magnitude(c),
    ;
    assert(q <= m) by (nonlinear_arith)
        requires
            q * len <= m * limit,
            0 <= limit < len,
            0 <= m,
            0 <= q,
    ;
}

/// Holds the displacement `v` to a length of at most `limit`.
pub fn clamp_length(v: Vector2, limit: i32) -> (r: Vector2)
    requires
        limit >= 0,
    ensures
        r@ == clamped(v@, limit as int),
        length_squared(r@) <= limit * limit,
{
    let x: i64 = v.x as i64;
    let y: i64 = v.y as i64;
    let l: i64 = limit as i64;
    proof {
        lemma_coordinate_square(x as int);
        lemma_coordinate_square(y as int);
        lemma_coordinate_square(l as int);
        lemma_coordinate_product(x as int, l as int);
        lemma_coordinate_product(y as int, l as int);
        lemma_clamped_length(v@, limit as int);
    }
    let s: u64 = (x * x) as u64 + (y * y) as u64;
    if s <= (l * l) as u64 {
        return v;
    }
    let len: i64 = root_ceiling(s) as i64;
    proof {
        assert(len > 0) by (nonlinear_arith)
            requires
                len >= 0,
                len * len >= s,
                s > 0,
        ;
        lemma_scaled_coordinate(x as int, l as int, len as int);
        lemma_scaled_coordinate(y as int, l as int, len as int);
    }
    let rx: i64 = divide_towards_zero(x * l, len);
    let ry: i64 = divide_towards_zero(y * l, len);
    Vector2 { x: rx as i32, y: ry as i32 }
}

/// The square of the distance between two points.
pub fn squared_distance(a: Vector2, b: Vector2) -> (d: i128)
    ensures
        d == distance_squared(a@, b@),
        d >= 0,
{
    let dx: i64 = a.x as i64 - b.x as i64;
    let dy: i64 = a.y as i64 - b.y as i64;
    proof {
        lemma_product_of_differences(dx as int, dx as int);
        lemma_product_of_differences(dy as int, dy as int);
        assert(dx * dx >= 0 && dy * dy >= 0) by (nonlinear_arith);
    }
    (dx as i128) * (dx as i128) + (dy as i128) * (dy as i128)
}

} // verus!
