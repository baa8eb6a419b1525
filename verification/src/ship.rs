//! The player's ship: a triangle with a pose, a velocity and the world
//! positions of its three vertices.
//!
//! The vertices are derived from the pose by `reload`. Turning the ship
//! changes the pose only; the vertices follow at the next `reload` or `tick`.
//! The rotation is not held to one turn: turning adds to it, and whole turns
//! are dropped only where its sine and cosine are taken.

use crate::angle::{normalize_wide, FULL_TURN, QUARTER_TURN};
use crate::arith::{divide_towards_zero, magnitude, truncated_quotient};
use crate::geometry::{
    clamp_length, clamped, lemma_clamped_length, lemma_placed_bounds, lemma_placed_congruent,
    lemma_placed_full_turn, lemma_rotated_bounds, lemma_rotated_congruent, length_squared, place,
    placed, rotate, rotated, Point, Vector2,
};
use crate::space::{lemma_wrapped_in_world, wrapped, World, WorldView, MAX_SIDE};
use vstd::prelude::*;

verus! {

/// The height of the ship, from its base to its top.
pub const SHIP_HEIGHT: i32 = 25_000;

/// The width of the ship's base.
pub const SHIP_BASE: i32 = 12_500;

/// The greatest speed of the ship, in length units per tick.
pub const MAX_SPEED: i32 = 10_000;

/// The change of velocity that one thrust gives.
pub const THRUST: i32 = 1_000;

/// The offset of the top vertex from the middle of a ship at rotation 0.
pub open spec fn top_offset() -> Point {
    Point { x: 0, y: -(SHIP_HEIGHT / 2) }
}

/// The offset of the right vertex from the middle of a ship at rotation 0.
pub open spec fn right_offset() -> Point {
    Point { x: SHIP_BASE / 2, y: SHIP_HEIGHT / 2 }
}

/// The offset of the left vertex from the middle of a ship at rotation 0.
pub open spec fn left_offset() -> Point {
    Point { x: -(SHIP_BASE / 2), y: SHIP_HEIGHT / 2 }
}

/// A velocity after one tick of drag: nine tenths of each coordinate,
/// rounded towards zero.
pub open spec fn damped(v: Point) -> Point {
    Point { x: truncated_quotient(v.x * 9, 10), y: truncated_quotient(v.y * 9, 10) }
}

/// The state of a ship, as mathematical values.
pub struct ShipView {
    pub middle: Point,
    pub rot: int,
    pub vel: Point,
    pub top: Point,
    pub right: Point,
    pub left: Point,
}

impl ShipView {
    /// A ship at `middle`, at rest and at rotation 0, with its vertices in
    /// place.
    pub open spec fn at_rest(middle: Point) -> ShipView {
        (ShipView {
            middle,
            rot: 0,
            vel: Point { x: 0, y: 0 },
            top: middle,
            right: middle,
            left: middle,
        }).reloaded()
    }

    /// The middle and the velocity are within the limits of the game: the
    /// middle in the largest world, the speed at most `MAX_SPEED`. The
    /// rotation is any angle.
    pub open spec fn wf(self) -> bool {
        &&& 0 <= self.middle.x <= MAX_SIDE
        &&& 0 <= self.middle.y <= MAX_SIDE
        &&& length_squared(self.vel) <= MAX_SPEED * MAX_SPEED
    }

    /// The ship with its vertices recomputed from its pose.
    pub open spec fn reloaded(self) -> ShipView {
        ShipView {
            top: placed(self.middle, self.rot, top_offset()),
            right: placed(self.middle, self.rot, right_offset()),
            left: placed(self.middle, self.rot, left_offset()),
            ..self
        }
    }

    /// Whether the vertices are those that the pose gives.
    pub open spec fn loaded(self) -> bool {
        self.reloaded() == self
    }

    /// The ship turned by `delta`: the rotation is the sum, whatever its
    /// size; the vertices stay behind.
    pub open spec fn turned(self, delta: int) -> ShipView {
        ShipView { rot: self.rot + delta, ..self }
    }

    /// The change of velocity of one forward thrust: `THRUST` against the
    /// direction a quarter turn on from the rotation, which is the way the
    /// top vertex points.
    pub open spec fn thrust(self) -> Point {
        rotated(Point { x: -THRUST, y: 0 }, self.rot + QUARTER_TURN)
    }

    /// The ship after one forward thrust, its speed held to `MAX_SPEED`.
    pub open spec fn accelerated(self) -> ShipView {
        ShipView { vel: clamped(self.vel.translated(self.thrust()), MAX_SPEED as int), ..self }
    }

    /// The ship after one backward thrust, its speed held to `MAX_SPEED`.
    pub open spec fn decelerated(self) -> ShipView {
        ShipView {
            vel: clamped(
                Point { x: self.vel.x - self.thrust().x, y: self.vel.y - self.thrust().y },
                MAX_SPEED as int,
            ),
            ..self
        }
    }

    /// The ship one tick later: moved by its velocity and wrapped into the
    /// world, slowed by drag, its vertices recomputed.
    pub open spec fn ticked(self, world: WorldView) -> ShipView {
        (ShipView {
            middle: wrapped(self.middle.translated(self.vel), world.width, world.height),
            vel: damped(self.vel),
            ..self
        }).reloaded()
    }

    /// Whether the ship is drawn: its middle lies at least half its height
    /// from every edge of the world.
    pub open spec fn drawn(self, world: WorldView) -> bool {
        &&& SHIP_HEIGHT / 2 <= self.middle.x <= world.width - SHIP_HEIGHT / 2
        &&& SHIP_HEIGHT / 2 <= self.middle.y <= world.height - SHIP_HEIGHT / 2
    }
}

/// A coordinate of a displacement is no larger in magnitude than a bound on
/// the displacement's length.
pub proof fn lemma_coordinates_within_length(v: Point, limit: int)
    by (nonlinear_arith)
    requires
        limit >= 0,
        length_squared(v) <= limit * limit,
    ensures
        -limit <= v.x <= limit,
        -limit <= v.y <= limit,
{
}

/// Drag never makes a displacement longer.
pub proof fn lemma_damped_no_longer(v: Point)
    ensures
        length_squared(damped(v)) <= length_squared(v),
        magnitude(damped(v).x) <= magnitude(v.x),
        magnitude(damped(v).y) <= magnitude(v.y),
{
    let d = damped(v);
    assert(d.x * d.x <= v.x * v.x) by (nonlinear_arith)
        requires
            magnitude(d.x) <= magnitude(v.x),
    ;
    assert(d.y * d.y <= v.y * v.y) by (nonlinear_arith)
        requires
            magnitude(d.y) <= magnitude(v.y),
    ;
}

/// However often a ship is thrust forwards or backwards, and whatever it did
/// before, its speed is at most `MAX_SPEED` afterwards.
pub proof fn lemma_speed_never_exceeds_maximum(ship: ShipView)
    ensures
        length_squared(ship.accelerated().vel) <= MAX_SPEED * MAX_SPEED,
        length_squared(ship.decelerated().vel) <= MAX_SPEED * MAX_SPEED,
{
    lemma_clamped_length(ship.vel.translated(ship.thrust()), MAX_SPEED as int);
    lemma_clamped_length(
        Point { x: ship.vel.x - ship.thrust().x, y: ship.vel.y - ship.thrust().y },
        MAX_SPEED as int,
    );
}

/// A ship's vertices are the same at a rotation and a full turn further on:
/// turning a ship by a full turn and reloading it moves no vertex.
pub proof fn lemma_reload_full_turn(ship: ShipView)
    ensures
        ({
            let further = ship.turned(FULL_TURN as int).reloaded();
            let here = ship.reloaded();
            &&& further.rot == ship.rot + FULL_TURN
            &&& further.top == here.top
            &&& further.right == here.right
            &&& further.left == here.left
        }),
{
    lemma_placed_full_turn(ship.middle, ship.rot, top_offset());
    lemma_placed_full_turn(ship.middle, ship.rot, right_offset());
    lemma_placed_full_turn(ship.middle, ship.rot, left_offset());
}

/// The player's ship.
#[derive(Clone, Copy, Debug, PartialEq, Eq)]
pub struct Ship {
    middle: Vector2,
    rot: i64,
    vel: Vector2,
    top: Vector2,
    right: Vector2,
    left: Vector2,
}

impl View for Ship {
    type V = ShipView;

    closed spec fn view(&self) -> ShipView {
        ShipView {
            middle: self.middle@,
            rot: self.rot as int,
            vel: self.vel@,
            top: self.top@,
            right: self.right@,
            left: self.left@,
        }
    }
}

impl Ship {
    /// Whether the middle and the velocity are within the limits of the game.
    pub open spec fn wf(&self) -> bool {
        self@.wf()
    }

    /// A ship at rest in the middle of the world, at rotation 0, with its
    /// vertices in place.
    pub fn new(world: &World) -> (ship: Ship)
        requires
            world.wf(),
        ensures
            ship@ == ShipView::at_rest(world@.center()),
            ship.wf(),
            ship@.loaded(),
    {
        let middle: Vector2 = world.center();
        let mut ship = Ship {
            middle,
            rot: 0,
            vel: Vector2 { x: 0, y: 0 },
            top: middle,
            right: middle,
            left: middle,
        };
        assert(length_squared(ship@.vel) == 0);
        ship.reload();
        ship
    }

    /// A ship with the given pose and velocity, its vertices in place, if the
    /// middle lies in the largest world and the speed is at most `MAX_SPEED`.
    /// The rotation is kept as it is given.
    pub fn from_parts(middle: Vector2, rot: i64, vel: Vector2) -> (ship: Option<Ship>)
        ensures
            ship is Some <==> {
                &&& 0 <= middle.x <= MAX_SIDE
                &&& 0 <= middle.y <= MAX_SIDE
                &&& length_squared(vel@) <= MAX_SPEED * MAX_SPEED
            },
            ship matches Some(s) ==> {
                &&& s.wf()
                &&& s@.loaded()
                &&& s@.middle == middle@
                &&& s@.rot == rot
                &&& s@.vel == vel@
            },
    {
        if middle.x < 0 || middle.x > MAX_SIDE || middle.y < 0 || middle.y > MAX_SIDE {
            return None;
        }
        if vel.x < -MAX_SPEED || vel.x > MAX_SPEED || vel.y < -MAX_SPEED || vel.y > MAX_SPEED {
            proof {
                if length_squared(vel@) <= MAX_SPEED * MAX_SPEED {
                    lemma_coordinates_within_length(vel@, MAX_SPEED as int);
                }
            }
            return None;
        }
        assert(0 <= vel.x * vel.x <= 100_000_000 && 0 <= vel.y * vel.y <= 100_000_000)
            by (nonlinear_arith)
            requires
                -10_000 <= vel.x <= 10_000,
                -10_000 <= vel.y <= 10_000,
        ;
        if vel.x * vel.x + vel.y * vel.y > MAX_SPEED * MAX_SPEED {
            return None;
        }
        let mut ship = Ship {
            middle,
            rot,
            vel,
            top: middle,
            right: middle,
            left: middle,
        };
        ship.reload();
        Some(ship)
    }

    /// Recomputes the vertices from the pose.
    pub fn reload(&mut self)
        requires
            old(self).wf(),
        ensures
            final(self)@ == old(self)@.reloaded(),
            final(self).wf(),
            final(self)@.loaded(),
    {
        let angle: i32 = normalize_wide(self.rot);
        proof {
            lemma_placed_congruent(self.middle@, angle as int, self.rot as int, top_offset());
            lemma_placed_congruent(self.middle@, angle as int, self.rot as int, right_offset());
            lemma_placed_congruent(self.middle@, angle as int, self.rot as int, left_offset());
            lemma_placed_bounds(self.middle@, angle as int, top_offset());
            lemma_placed_bounds(self.middle@, angle as int, right_offset());
            lemma_placed_bounds(self.middle@, angle as int, left_offset());
        }
        self.top = place(self.middle, angle, Vector2 { x: 0, y: -(SHIP_HEIGHT / 2) });
        self.right = place(
            self.middle,
            angle,
            Vector2 { x: SHIP_BASE / 2, y: SHIP_HEIGHT / 2 },
        );
        self.left = place(
            self.middle,
            angle,
            Vector2 { x: -(SHIP_BASE / 2), y: SHIP_HEIGHT / 2 },
        );
    }

    /// Turns the ship by `delta`: adds it to the rotation. The vertices stay
    /// where they are until the next `reload` or `tick`.
    ///
    /// The sum has to fit the 64 bits that hold the rotation.
    pub fn rotate(&mut self, delta: i64)
        requires
            old(self).wf(),
            i64::MIN <= old(self)@.rot + delta <= i64::MAX,
        ensures
            final(self)@ == old(self)@.turned(delta as int),
            final(self).wf(),
    {
        self.rot = self.rot + delta;
    }

    /// The change of velocity of one forward thrust.
    fn thrust(&self) -> (t: Vector2)
        requires
            self.wf(),
        ensures
            t@ == self@.thrust(),
            -THRUST <= t.x <= THRUST,
            -THRUST <= t.y <= THRUST,
    {
        let heading: i32 = normalize_wide(self.rot) + QUARTER_TURN;
        proof {
            let back = Point { x: -THRUST, y: 0 };
            lemma_rotated_congruent(back, heading as int, self.rot + QUARTER_TURN);
            lemma_rotated_bounds(back, heading as int);
        }
        rotate(Vector2 { x: -THRUST, y: 0 }, heading)
    }

    /// Thrusts the ship forwards, the way its top vertex points, and holds
    /// its speed to `MAX_SPEED`.
    pub fn accelerate(&mut self)
        requires
            old(self).wf(),
        ensures
            final(self)@ == old(self)@.accelerated(),
            final(self).wf(),
            length_squared(final(self)@.vel) <= MAX_SPEED * MAX_SPEED,
    {
        let t: Vector2 = self.thrust();
        proof {
            lemma_coordinates_within_length(self.vel@, MAX_SPEED as int);
        }
        let pushed = Vector2 { x: self.vel.x + t.x, y: self.vel.y + t.y };
        self.vel = clamp_length(pushed, MAX_SPEED);
    }

    /// Thrusts the ship backwards and holds its speed to `MAX_SPEED`.
    pub fn decelerate(&mut self)
        requires
            old(self).wf(),
        ensures
            final(self)@ == old(self)@.decelerated(),
            final(self).wf(),
            length_squared(final(self)@.vel) <= MAX_SPEED * MAX_SPEED,
    {
        let t: Vector2 = self.thrust();
        proof {
            lemma_coordinates_within_length(self.vel@, MAX_SPEED as int);
        }
        let pushed = Vector2 { x: self.vel.x - t.x, y: self.vel.y - t.y };
        self.vel = clamp_length(pushed, MAX_SPEED);
    }

    /// Advances the ship by one tick: moves it by its velocity, wraps it into
    /// the world, applies drag and recomputes the vertices.
    pub fn tick(&mut self, world: &World)
        requires
            old(self).wf(),
            world.wf(),
        ensures
            final(self)@ == old(self)@.ticked(world@),
            final(self).wf(),
            final(self)@.loaded(),
    {
        proof {
            lemma_coordinates_within_length(self.vel@, MAX_SPEED as int);
            lemma_damped_no_longer(self.vel@);
            lemma_wrapped_in_world(
                self.middle@.translated(self.vel@),
                world@.width,
                world@.height,
            );
        }
        let moved = Vector2 { x: self.middle.x + self.vel.x, y: self.middle.y + self.vel.y };
        self.middle = world.wrap(moved);
        let vx: i64 = divide_towards_zero(self.vel.x as i64 * 9, 10);
        let vy: i64 = divide_towards_zero(self.vel.y as i64 * 9, 10);
        self.vel = Vector2 { x: vx as i32, y: vy as i32 };
        self.reload();
    }

    /// Whether the ship is drawn in this world.
    pub fn is_drawn(&self, world: &World) -> (drawn: bool)
        requires
            world.wf(),
        ensures
            drawn == self@.drawn(world@),
    {
        let half: i32 = SHIP_HEIGHT / 2;
        let w: i32 = world.width();
        let h: i32 = world.height();
        !(self.middle.x < half || self.middle.x > w - half) && !(self.middle.y < half
            || self.middle.y > h - half)
    }

    /// The middle of the ship.
    pub fn middle(&self) -> (p: Vector2)
        ensures
            p@ == self@.middle,
    {
        self.middle
    }

    /// The rotation of the ship, in hundredths of a degree. It counts whole
    /// turns too.
    pub fn rotation(&self) -> (r: i64)
        ensures
            r == self@.rot,
    {
        self.rot
    }

    /// The velocity of the ship, in length units per tick.
    pub fn velocity(&self) -> (v: Vector2)
        ensures
            v@ == self@.vel,
    {
        self.vel
    }

    /// The top vertex, as last reloaded.
    pub fn top(&self) -> (p: Vector2)
        ensures
            p@ == self@.top,
    {
        self.top
    }

    /// The right vertex, as last reloaded.
    pub fn right(&self) -> (p: Vector2)
        ensures
            p@ == self@.right,
    {
        self.right
    }

    /// The left vertex, as last reloaded.
    pub fn left(&self) -> (p: Vector2)
        ensures
            p@ == self@.left,
    {
        self.left
    }
}

} // verus!
