//! The wrapped plane the game is played on.
//!
//! A coordinate that runs off one edge of the world comes back at the
//! opposite edge. The world is given explicitly to everything that needs it.

use crate::geometry::{Point, Vector2};
use vstd::prelude::*;

verus! {

/// The largest side a world may have, in length units.
pub const MAX_SIDE: i32 = 1_000_000_000;

/// The least distance kept between the ship and a newly placed barbell: ten
/// ship heights.
pub const SAFE_DISTANCE: i32 = 250_000;

/// A coordinate brought back into a world side of length `side`: a
/// coordinate at or beyond the side comes back at 0, a negative one at the
/// side itself.
pub open spec fn wrapped_coordinate(c: int, side: int) -> int {
    if c >= side {
        0
    } else if c < 0 {
        side
    } else {
        c
    }
}

/// A position brought back into a world of the given sides.
pub open spec fn wrapped(p: Point, width: int, height: int) -> Point {
    Point { x: wrapped_coordinate(p.x, width), y: wrapped_coordinate(p.y, height) }
}

/// A wrapped position lies in the world, edges included.
pub proof fn lemma_wrapped_in_world(p: Point, width: int, height: int)
    requires
        width > 0,
        height > 0,
    ensures
        0 <= wrapped(p, width, height).x <= width,
        0 <= wrapped(p, width, height).y <= height,
{
}

/// Wrapping twice is wrapping once, but for a coordinate that was negative:
/// it comes back at the far edge first and at 0 the second time.
pub proof fn lemma_wrapped_twice(c: int, side: int)
    requires
        side > 0,
    ensures
        wrapped_coordinate(wrapped_coordinate(c, side), side) == (if c < 0 {
            0
        } else {
            wrapped_coordinate(c, side)
        }),
        c < 0 ==> wrapped_coordinate(c, side) == side,
        c >= side ==> wrapped_coordinate(c, side) == 0,
{
}

/// Wrapping is idempotent on positions with no negative coordinate.
pub proof fn lemma_wrapped_idempotent(p: Point, width: int, height: int)
    requires
        width > 0,
        height > 0,
        p.x >= 0,
        p.y >= 0,
    ensures
        wrapped(wrapped(p, width, height), width, height) == wrapped(p, width, height),
{
}

/// Brings one coordinate back into a side.
fn wrap_coordinate(c: i32, side: i32) -> (r: i32)
    ensures
        r == wrapped_coordinate(c as int, side as int),
{
    if c >= side {
        0
    } else if c < 0 {
        side
    } else {
        c
    }
}

/// Brings a position back into a world of the given width and height.
pub fn wrap_position(position: Vector2, world_width: i32, world_height: i32) -> (r: Vector2)
    ensures
        r@ == wrapped(position@, world_width as int, world_height as int),
{
    Vector2 {
        x: wrap_coordinate(position.x, world_width),
        y: wrap_coordinate(position.y, world_height),
    }
}

/// The sides of a world, as mathematical integers.
pub struct WorldView {
    pub width: int,
    pub height: int,
}

impl WorldView {
    /// A world is playable when its sides are positive and at most
    /// `MAX_SIDE`, and the diagonal between its opposite corners is at least
    /// twice the safe distance: then the corner farthest from any point lies
    /// a safe distance away from it.
    ///
    /// The places of a world are those with `0 <= x < width` and
    /// `0 <= y < height`, so its corners are at 0 and at one less than the
    /// side.
    pub open spec fn wf(self) -> bool {
        &&& 1 <= self.width <= MAX_SIDE
        &&& 1 <= self.height <= MAX_SIDE
        &&& (self.width - 1) * (self.width - 1) + (self.height - 1) * (self.height - 1) >= 4
            * (SAFE_DISTANCE * SAFE_DISTANCE)
    }

    /// The middle of the world, rounded down.
    pub open spec fn center(self) -> Point {
        Point { x: self.width / 2, y: self.height / 2 }
    }

    /// The corner of the world farthest from `p`.
    pub open spec fn farthest_corner(self, p: Point) -> Point {
        Point {
            x: if 2 * p.x >= self.width - 1 {
                0
            } else {
                self.width - 1
            },
            y: if 2 * p.y >= self.height - 1 {
                0
            } else {
                self.height - 1
            },
        }
    }
}

/// The bounds of the world.
#[derive(Clone, Copy, Debug, PartialEq, Eq)]
pub struct World {
    width: i32,
    height: i32,
}

impl View for World {
    type V = WorldView;

    closed spec fn view(&self) -> WorldView {
        WorldView { width: self.width as int, height: self.height as int }
    }
}

impl World {
    /// Whether the world is playable.
    pub open spec fn wf(&self) -> bool {
        self@.wf()
    }

    /// A world of the given sides, if it is playable.
    pub fn new(width: i32, height: i32) -> (world: Option<World>)
        ensures
            world is Some <==> (WorldView { width: width as int, height: height as int }).wf(),
            world matches Some(w) ==> w@ == (WorldView {
                width: width as int,
                height: height as int,
            }),
    {
        if width < 1 || width > MAX_SIDE || height < 1 || height > MAX_SIDE {
            return None;
        }
        let w: i64 = width as i64 - 1;
        let h: i64 = height as i64 - 1;
        let s: i64 = SAFE_DISTANCE as i64;
        assert(0 <= w * w <= 1_000_000_000 * 1_000_000_000) by (nonlinear_arith)
            requires
                0 <= w <= 1_000_000_000,
        ;
        assert(0 <= h * h <= 1_000_000_000 * 1_000_000_000) by (nonlinear_arith)
            requires
                0 <= h <= 1_000_000_000,
        ;
        if w * w + h * h < 4 * (s * s) {
            return None;
        }
        Some(World { width, height })
    }

    /// The width of the world.
    pub fn width(&self) -> (w: i32)
        ensures
            w == self@.width,
    {
        self.width
    }

    /// The height of the world.
    pub fn height(&self) -> (h: i32)
        ensures
            h == self@.height,
    {
        self.height
    }

    /// The middle of the world.
    pub fn center(&self) -> (c: Vector2)
        requires
            self.wf(),
        ensures
            c@ == self@.center(),
    {
        Vector2 { x: self.width / 2, y: self.height / 2 }
    }

    /// Brings a position back into this world.
    pub fn wrap(&self, position: Vector2) -> (r: Vector2)
        ensures
            r@ == wrapped(position@, self@.width, self@.height),
    {
        wrap_position(position, self.width, self.height)
    }
}

} // verus!
