//! The barbells: a bar with a bell at each end, drifting and spinning.
//!
//! A barbell has a pose, a velocity fixed when it is placed, a spin
//! direction, and the world positions of the two ends of its bar and of the
//! four tips of its bells. The positions are derived from the pose by
//! `reload`.

use crate::angle::{normalize, normalized, FULL_TURN};
use crate::geometry::{
    lemma_placed_bounds, lemma_placed_full_turn, place, placed, Point, Vector2,
};
use crate::random::{safely_apart, spawn_position, spawned_at};
use crate::space::{lemma_wrapped_in_world, wrapped, World, WorldView, MAX_SIDE};
use vstd::prelude::*;

verus! {

/// The length of the bar.
pub const BARBELL_WIDTH: i32 = 150_000;

/// How far each tip of a bell stands off the bar: a tenth of the bar's
/// length.
pub const BELL_REACH: i32 = 15_000;

/// The rotation of one tick of spin, in hundredths of a degree.
pub const SPIN_STEP: i32 = 36;

/// The bound on each coordinate of a barbell's velocity.
pub const MAX_DRIFT: i32 = 4_000;

/// A draw flips the spin direction when its remainder modulo this is above
/// `FLIP_ABOVE`.
pub const FLIP_MODULUS: u32 = 1_000;

/// See `FLIP_MODULUS`.
pub const FLIP_ABOVE: u32 = 997;

/// The offset of the left end of the bar at rotation 0.
pub open spec fn left_offset() -> Point {
    Point { x: -(BARBELL_WIDTH / 2), y: 0 }
}

/// The offset of the right end of the bar at rotation 0.
pub open spec fn right_offset() -> Point {
    Point { x: BARBELL_WIDTH / 2, y: 0 }
}

/// The offset of the lower tip of the left bell at rotation 0.
pub open spec fn left_bell_bot_offset() -> Point {
    Point { x: -(BARBELL_WIDTH / 2), y: BELL_REACH as int }
}

/// The offset of the upper tip of the left bell at rotation 0.
pub open spec fn left_bell_top_offset() -> Point {
    Point { x: -(BARBELL_WIDTH / 2), y: -BELL_REACH }
}

/// The offset of the lower tip of the right bell at rotation 0.
pub open spec fn right_bell_bot_offset() -> Point {
    Point { x: BARBELL_WIDTH / 2, y: BELL_REACH as int }
}

/// The offset of the upper tip of the right bell at rotation 0.
pub open spec fn right_bell_top_offset() -> Point {
    Point { x: BARBELL_WIDTH / 2, y: -BELL_REACH }
}

/// Whether a draw flips the spin direction.
pub open spec fn flips(draw: u32) -> bool {
    draw % FLIP_MODULUS > FLIP_ABOVE
}

/// The state of a barbell, as mathematical values.
pub struct BarbellView {
    pub middle: Point,
    pub rot: int,
    pub vel: Point,
    pub clockwise: bool,
    pub left: Point,
    pub right: Point,
    pub left_bell_top: Point,
    pub left_bell_bot: Point,
    pub right_bell_top: Point,
    pub right_bell_bot: Point,
}

impl BarbellView {
    /// A barbell with the given pose, velocity and spin direction, its
    /// landmarks in place.
    pub open spec fn from_parts(
        middle: Point,
        rot: int,
        vel: Point,
        clockwise: bool,
    ) -> BarbellView {
        (BarbellView {
            middle,
            rot,
            vel,
            clockwise,
            left: middle,
            right: middle,
            left_bell_top: middle,
            left_bell_bot: middle,
            right_bell_top: middle,
            right_bell_bot: middle,
        }).reloaded()
    }

    /// The barbell that three draws give at `middle`: the first, modulo a
    /// full turn, is its rotation; the other two, modulo twice `MAX_DRIFT`
    /// and less `MAX_DRIFT`, are its velocity. It spins clockwise.
    pub open spec fn from_draws(
        middle: Point,
        rot_draw: u32,
        vx_draw: u32,
        vy_draw: u32,
    ) -> BarbellView {
        BarbellView::from_parts(
            middle,
            rot_draw as int % (FULL_TURN as int),
            Point {
                x: vx_draw as int % (2 * MAX_DRIFT) - MAX_DRIFT,
                y: vy_draw as int % (2 * MAX_DRIFT) - MAX_DRIFT,
            },
            true,
        )
    }

    /// The pose and velocity are within the limits of the game: the middle in
    /// the largest world, the rotation in normal form, each coordinate of the
    /// velocity at most `MAX_DRIFT` in magnitude.
    pub open spec fn wf(self) -> bool {
        &&& 0 <= self.middle.x <= MAX_SIDE
        &&& 0 <= self.middle.y <= MAX_SIDE
        &&& 0 <= self.rot < FULL_TURN
        &&& -MAX_DRIFT <= self.vel.x <= MAX_DRIFT
        &&& -MAX_DRIFT <= self.vel.y <= MAX_DRIFT
    }

    /// What holds of a barbell that was just placed for a ship whose middle
    /// is `ship_middle`: its place is one that `spawn_position` may find, so
    /// it lies in the world, at least the safe distance from the ship; and
    /// it is the barbell that some three draws give there.
    pub open spec fn newly_placed(self, ship_middle: Point, world: WorldView) -> bool {
        &&& self.wf()
        &&& self.loaded()
        &&& spawned_at(self.middle, ship_middle, world)
        &&& safely_apart(self.middle, ship_middle)
        &&& 0 <= self.middle.x < world.width
        &&& 0 <= self.middle.y < world.height
        &&& exists|rot_draw: u32, vx_draw: u32, vy_draw: u32|
            self == BarbellView::from_draws(self.middle, rot_draw, vx_draw, vy_draw)
    }

    /// The barbell with its landmarks recomputed from its pose.
    pub open spec fn reloaded(self) -> BarbellView {
        BarbellView {
            left: placed(self.middle, self.rot, left_offset()),
            right: placed(self.middle, self.rot, right_offset()),
            left_bell_top: placed(self.middle, self.rot, left_bell_top_offset()),
            left_bell_bot: placed(self.middle, self.rot, left_bell_bot_offset()),
            right_bell_top: placed(self.middle, self.rot, right_bell_top_offset()),
            right_bell_bot: placed(self.middle, self.rot, right_bell_bot_offset()),
            ..self
        }
    }

    /// Whether the landmarks are those that the pose gives.
    pub open spec fn loaded(self) -> bool {
        self.reloaded() == self
    }

    /// The barbell after one tick of spin decided by `draw`: the direction
    /// flips if the draw says so, then the rotation moves one step in the
    /// direction and is brought into normal form. The landmarks stay behind.
    pub open spec fn spun(self, draw: u32) -> BarbellView {
        let clockwise = if flips(draw) {
            !self.clockwise
        } else {
            self.clockwise
        };
        let step = if clockwise {
            SPIN_STEP as int
        } else {
            -SPIN_STEP
        };
        BarbellView { clockwise, rot: normalized(self.rot + step), ..self }
    }

    /// The barbell one tick later: moved by its velocity and wrapped into
    /// the world, its landmarks recomputed.
    pub open spec fn ticked(self, world: WorldView) -> BarbellView {
        (BarbellView {
            middle: wrapped(self.middle.translated(self.vel), world.width, world.height),
            ..self
        }).reloaded()
    }
}

/// A barbell's landmarks are the same at a rotation and a full turn further
/// on.
pub proof fn lemma_reload_full_turn(barbell: BarbellView)
    ensures
        ({
            let further = (BarbellView { rot: barbell.rot + FULL_TURN, ..barbell }).reloaded();
            let here = barbell.reloaded();
            &&& further.left == here.left
            &&& further.right == here.right
            &&& further.left_bell_top == here.left_bell_top
            &&& further.left_bell_bot == here.left_bell_bot
            &&& further.right_bell_top == here.right_bell_top
            &&& further.right_bell_bot == here.right_bell_bot
        }),
{
    lemma_placed_full_turn(barbell.middle, barbell.rot, left_offset());
    lemma_placed_full_turn(barbell.middle, barbell.rot, right_offset());
    lemma_placed_full_turn(barbell.middle, barbell.rot, left_bell_top_offset());
    lemma_placed_full_turn(barbell.middle, barbell.rot, left_bell_bot_offset());
    lemma_placed_full_turn(barbell.middle, barbell.rot, right_bell_top_offset());
    lemma_placed_full_turn(barbell.middle, barbell.rot, right_bell_bot_offset());
}

/// A barbell.
#[derive(Clone, Copy, Debug, PartialEq, Eq)]
pub struct Barbell {
    middle: Vector2,
    rot: i32,
    vel: Vector2,
    clockwise: bool,
    left: Vector2,
    right: Vector2,
    left_bell_top: Vector2,
    left_bell_bot: Vector2,
    right_bell_top: Vector2,
    right_bell_bot: Vector2,
}

impl View for Barbell {
    type V = BarbellView;

    closed spec fn view(&self) -> BarbellView {
        BarbellView {
            middle: self.middle@,
            rot: self.rot as int,
            vel: self.vel@,
            clockwise: self.clockwise,
            left: self.left@,
            right: self.right@,
            left_bell_top: self.left_bell_top@,
            left_bell_bot: self.left_bell_bot@,
            right_bell_top: self.right_bell_top@,
            right_bell_bot: self.right_bell_bot@,
        }
    }
}

impl Barbell {
    /// Whether the pose and velocity are within the limits of the game.
    pub open spec fn wf(&self) -> bool {
        self@.wf()
    }

    /// A new barbell somewhere in the world, at least the safe distance from
    /// the ship's middle, with a drawn rotation and a drawn velocity,
    /// spinning clockwise, its landmarks in place.
    pub fn new(
        ship_middle: Vector2,
        world: &World,
        generator: &macroquad::rand::RandGenerator,
    ) -> (barbell: Barbell)
        requires
            world.wf(),
        ensures
            barbell@.newly_placed(ship_middle@, world@),
            barbell.wf(),
    {
        let middle: Vector2 = spawn_position(ship_middle, world, generator);
        let vx_draw: u32 = generator.rand();
        let vy_draw: u32 = generator.rand();
        let rot_draw: u32 = generator.rand();
        Barbell::from_draws(middle, rot_draw, vx_draw, vy_draw)
    }

    /// The barbell that three draws give at `middle`.
    pub fn from_draws(
        middle: Vector2,
        rot_draw: u32,
        vx_draw: u32,
        vy_draw: u32,
    ) -> (barbell: Barbell)
        requires
            0 <= middle.x <= MAX_SIDE,
            0 <= middle.y <= MAX_SIDE,
        ensures
            barbell@ == BarbellView::from_draws(middle@, rot_draw, vx_draw, vy_draw),
            barbell.wf(),
            barbell@.loaded(),
    {
        let rot: u32 = rot_draw % (FULL_TURN as u32);
        let span: u32 = 2 * (MAX_DRIFT as u32);
        let vx: i32 = (vx_draw % span) as i32 - MAX_DRIFT;
        let vy: i32 = (vy_draw % span) as i32 - MAX_DRIFT;
        let mut barbell = Barbell {
            middle,
            rot: rot as i32,
            vel: Vector2 { x: vx, y: vy },
            clockwise: true,
            left: middle,
            right: middle,
            left_bell_top: middle,
            left_bell_bot: middle,
            right_bell_top: middle,
            right_bell_bot: middle,
        };
        barbell.reload();
        barbell
    }

    /// A barbell with the given pose, velocity and spin direction, its
    /// landmarks in place, if the middle lies in the largest world and no
    /// coordinate of the velocity exceeds `MAX_DRIFT` in magnitude. The
    /// rotation is brought into normal form.
    pub fn from_parts(
        middle: Vector2,
        rot: i32,
        vel: Vector2,
        clockwise: bool,
    ) -> (barbell: Option<Barbell>)
        ensures
            barbell is Some <==> {
                &&& 0 <= middle.x <= MAX_SIDE
                &&& 0 <= middle.y <= MAX_SIDE
                &&& -MAX_DRIFT <= vel.x <= MAX_DRIFT
                &&& -MAX_DRIFT <= vel.y <= MAX_DRIFT
            },
            barbell matches Some(b) ==> {
                &&& b.wf()
                &&& b@ == BarbellView::from_parts(
                    middle@,
                    normalized(rot as int),
                    vel@,
                    clockwise,
                )
            },
    {
        if middle.x < 0 || middle.x > MAX_SIDE || middle.y < 0 || middle.y > MAX_SIDE {
            return None;
        }
        if vel.x < -MAX_DRIFT || vel.x > MAX_DRIFT || vel.y < -MAX_DRIFT || vel.y > MAX_DRIFT {
            return None;
        }
        let mut barbell = Barbell {
            middle,
            rot: normalize(rot),
            vel,
            clockwise,
            left: middle,
            right: middle,
            left_bell_top: middle,
            left_bell_bot: middle,
            right_bell_top: middle,
            right_bell_bot: middle,
        };
        barbell.reload();
        Some(barbell)
    }

    /// Recomputes the landmarks from the pose.
    pub fn reload(&mut self)
        requires
            old(self).wf(),
        ensures
            final(self)@ == old(self)@.reloaded(),
            final(self).wf(),
            final(self)@.loaded(),
    {
        proof {
            lemma_placed_bounds(self.middle@, self.rot as int, left_offset());
            lemma_placed_bounds(self.middle@, self.rot as int, right_offset());
            lemma_placed_bounds(self.middle@, self.rot as int, left_bell_top_offset());
            lemma_placed_bounds(self.middle@, self.rot as int, left_bell_bot_offset());
            lemma_placed_bounds(self.middle@, self.rot as int, right_bell_top_offset());
            lemma_placed_bounds(self.middle@, self.rot as int, right_bell_bot_offset());
        }
        let half: i32 = BARBELL_WIDTH / 2;
        self.left = place(self.middle, self.rot, Vector2 { x: -half, y: 0 });
        self.right = place(self.middle, self.rot, Vector2 { x: half, y: 0 });
        self.left_bell_bot = place(self.middle, self.rot, Vector2 { x: -half, y: BELL_REACH });
        self.left_bell_top = place(self.middle, self.rot, Vector2 { x: -half, y: -BELL_REACH });
        self.right_bell_bot = place(self.middle, self.rot, Vector2 { x: half, y: BELL_REACH });
        self.right_bell_top = place(self.middle, self.rot, Vector2 { x: half, y: -BELL_REACH });
    }

    /// One tick of spin, decided by `draw`. The landmarks stay where they
    /// are until the next `reload` or `tick`.
    pub fn spin(&mut self, draw: u32)
        requires
            old(self).wf(),
        ensures
            final(self)@ == old(self)@.spun(draw),
            final(self).wf(),
    {
        if draw % FLIP_MODULUS > FLIP_ABOVE {
            self.clockwise = !self.clockwise;
        }
        if self.clockwise {
            self.rot = normalize(self.rot + SPIN_STEP);
        } else {
            self.rot = normalize(self.rot - SPIN_STEP);
        }
    }

    /// One tick of spin, decided by a draw from the generator.
    pub fn spin_tick(&mut self, generator: &macroquad::rand::RandGenerator)
        requires
            old(self).wf(),
        ensures
            exists|draw: u32| final(self)@ == old(self)@.spun(draw),
            final(self).wf(),
    {
        let draw: u32 = generator.rand();
        self.spin(draw);
    }

    /// Advances the barbell by one tick: moves it by its velocity, wraps it
    /// into the world and recomputes the landmarks.
    pub fn tick(&mut self, world: &World)
        requires
            old(self).wf(),
            world.wf(),
        ensures
            final(self)@ == old(self)@.ticked(world@),
            final(self).wf(),
            final(self)@.loaded(),
    {
        proof {
            lemma_wrapped_in_world(
                self.middle@.translated(self.vel@),
                world@.width,
                world@.height,
            );
        }
        let moved = Vector2 { x: self.middle.x + self.vel.x, y: self.middle.y + self.vel.y };
        self.middle = world.wrap(moved);
        self.reload();
    }

    /// The middle of the barbell.
    pub fn middle(&self) -> (p: Vector2)
        ensures
            p@ == self@.middle,
    {
        self.middle
    }

    /// The rotation of the barbell, in hundredths of a degree.
    pub fn rotation(&self) -> (r: i32)
        ensures
            r == self@.rot,
    {
        self.rot
    }

    /// The velocity of the barbell, in length units per tick.
    pub fn velocity(&self) -> (v: Vector2)
        ensures
            v@ == self@.vel,
    {
        self.vel
    }

    /// Whether the barbell spins clockwise.
    pub fn is_clockwise(&self) -> (c: bool)
        ensures
            c == self@.clockwise,
    {
        self.clockwise
    }

    /// The left end of the bar, as last reloaded.
    pub fn left(&self) -> (p: Vector2)
        ensures
            p@ == self@.left,
    {
        self.left
    }

    /// The right end of the bar, as last reloaded.
    pub fn right(&self) -> (p: Vector2)
        ensures
            p@ == self@.right,
    {
        self.right
    }

    /// The upper tip of the left bell, as last reloaded.
    pub fn left_bell_top(&self) -> (p: Vector2)
        ensures
            p@ == self@.left_bell_top,
    {
        self.left_bell_top
    }

    /// The lower tip of the left bell, as last reloaded.
    pub fn left_bell_bot(&self) -> (p: Vector2)
        ensures
            p@ == self@.left_bell_bot,
    {
        self.left_bell_bot
    }

    /// The upper tip of the right bell, as last reloaded.
    pub fn right_bell_top(&self) -> (p: Vector2)
        ensures
            p@ == self@.right_bell_top,
    {
        self.right_bell_top
    }

    /// The lower tip of the right bell, as last reloaded.
    pub fn right_bell_bot(&self) -> (p: Vector2)
        ensures
            p@ == self@.right_bell_bot,
    {
        self.right_bell_bot
    }
}

} // verus!
