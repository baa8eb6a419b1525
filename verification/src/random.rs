//! The source of random draws, and what the game makes of a draw.
//!
//! The generator is handed explicitly to every function that draws. Nothing
//! is assumed of the numbers it returns: each function that draws states
//! what holds for every value that may come back, and beside it stands a
//! function that takes the drawn values as arguments and is exact.

use crate::arith::magnitude;
use crate::geometry::{distance_squared, squared_distance, Point, Vector2};
use crate::space::{World, WorldView, SAFE_DISTANCE};
use vstd::prelude::*;

verus! {

/// `macroquad::rand::RandGenerator`, the generator of the crate quad-rand as
/// macroquad hands it on, carried through as an opaque value.
#[verifier::external_type_specification]
#[verifier::external_body]
pub struct ExRandGenerator(macroquad::rand::RandGenerator);

/// `RandGenerator::rand` steps the generator, whose state lies behind a
/// shared reference, and returns 32 bits computed from that state. Nothing is
/// claimed of the value returned: two calls on one generator may differ.
pub assume_specification[ macroquad::rand::RandGenerator::rand ](
    generator: &macroquad::rand::RandGenerator,
) -> (draw: u32)
;

/// How often a position is drawn for a new barbell before the farthest
/// corner of the world is taken instead.
pub const SPAWN_ATTEMPTS: u32 = 64;

/// Whether `p` lies at least the safe distance from the ship's middle.
pub open spec fn safely_apart(p: Point, ship_middle: Point) -> bool {
    distance_squared(p, ship_middle) >= SAFE_DISTANCE * SAFE_DISTANCE
}

impl WorldView {
    /// The position that two draws give: each reduced modulo a side.
    pub open spec fn position_from_draws(self, x_draw: u32, y_draw: u32) -> Point {
        Point { x: x_draw as int % self.width, y: y_draw as int % self.height }
    }
}

/// In a playable world the corner farthest from a point lies at least the
/// safe distance from it.
pub proof fn lemma_farthest_corner_is_safe(world: WorldView, p: Point)
    requires
        world.wf(),
    ensures
        safely_apart(world.farthest_corner(p), p),
{
    let c = world.farthest_corner(p);
    let dx = magnitude(c.x - p.x);
    let dy = magnitude(c.y - p.y);
    let w = world.width - 1;
    let h = world.height - 1;
    assert(2 * dx >= w);
    assert(2 * dy >= h);
    assert(4 * (dx * dx) >= w * w) by (nonlinear_arith)
        requires
            2 * dx >= w,
            w >= 0,
    ;
    assert(4 * (dy * dy) >= h * h) by (nonlinear_arith)
        requires
            2 * dy >= h,
            h >= 0,
    ;
    assert(dx * dx == (c.x - p.x) * (c.x - p.x)) by (nonlinear_arith)
        requires
            dx == c.x - p.x || dx == p.x - c.x,
    ;
    assert(dy * dy == (c.y - p.y) * (c.y - p.y)) by (nonlinear_arith)
        requires
            dy == c.y - p.y || dy == p.y - c.y,
    ;
}

/// Whether `p` lies at least the safe distance from the ship's middle.
pub fn is_safely_apart(p: Vector2, ship_middle: Vector2) -> (safe: bool)
    ensures
        safe == safely_apart(p@, ship_middle@),
{
    let limit: i128 = (SAFE_DISTANCE as i128) * (SAFE_DISTANCE as i128);
    squared_distance(p, ship_middle) >= limit
}

impl World {
    /// The position that two draws give.
    pub fn position_from_draws(&self, x_draw: u32, y_draw: u32) -> (p: Vector2)
        requires
            self.wf(),
        ensures
            p@ == self@.position_from_draws(x_draw, y_draw),
            0 <= p.x < self@.width,
            0 <= p.y < self@.height,
    {
        let x: u32 = x_draw % (self.width() as u32);
        let y: u32 = y_draw % (self.height() as u32);
        Vector2 { x: x as i32, y: y as i32 }
    }

    /// The corner of the world farthest from `p`.
    pub fn farthest_corner(&self, p: Vector2) -> (c: Vector2)
        requires
            self.wf(),
        ensures
            c@ == self@.farthest_corner(p@),
            safely_apart(c@, p@),
            0 <= c.x < self@.width,
            0 <= c.y < self@.height,
    {
        proof {
            lemma_farthest_corner_is_safe(self@, p@);
        }
        let x: i32 = if 2 * (p.x as i64) >= self.width() as i64 - 1 {
            0
        } else {
            self.width() - 1
        };
        let y: i32 = if 2 * (p.y as i64) >= self.height() as i64 - 1 {
            0
        } else {
            self.height() - 1
        };
        Vector2 { x, y }
    }
}

/// The `i`-th candidate of a sequence of drawn pairs: the position that the
/// pair gives.
pub open spec fn candidate(world: WorldView, draws: Seq<(u32, u32)>, i: int) -> Point {
    world.position_from_draws(draws[i].0, draws[i].1)
}

/// The place for a new barbell that a sequence of drawn pairs gives: the
/// first candidate that lies safely apart from the ship, or, where none
/// does, the corner of the world farthest from the ship.
pub open spec fn chosen_position(
    world: WorldView,
    ship_middle: Point,
    draws: Seq<(u32, u32)>,
) -> Point
    decreases draws.len(),
{
    if draws.len() == 0 {
        world.farthest_corner(ship_middle)
    } else if safely_apart(candidate(world, draws, 0), ship_middle) {
        candidate(world, draws, 0)
    } else {
        chosen_position(world, ship_middle, draws.drop_first())
    }
}

/// Whether `draws` are pairs as `spawn_position` takes them: at most
/// `SPAWN_ATTEMPTS`, none but the last safely apart from the ship, and the
/// last safely apart unless all `SPAWN_ATTEMPTS` were taken.
pub open spec fn drawn_until_safe(
    world: WorldView,
    ship_middle: Point,
    draws: Seq<(u32, u32)>,
) -> bool {
    &&& draws.len() <= SPAWN_ATTEMPTS
    &&& forall|i: int|
        0 <= i < draws.len() - 1 ==> !safely_apart(
            #[trigger] candidate(world, draws, i),
            ship_middle,
        )
    &&& (draws.len() == SPAWN_ATTEMPTS || (draws.len() > 0 && safely_apart(
        candidate(world, draws, draws.len() - 1),
        ship_middle,
    )))
}

/// Whether `p` is a place that `spawn_position` may find for a ship whose
/// middle is `ship_middle`: the place that some pairs, drawn until one was
/// safe, give.
pub open spec fn spawned_at(p: Point, ship_middle: Point, world: WorldView) -> bool {
    exists|draws: Seq<(u32, u32)>| #[trigger]
        drawn_until_safe(world, ship_middle, draws) && p == chosen_position(
            world,
            ship_middle,
            draws,
        )
}

/// Candidates that are not safely apart are passed over: after `k` of them
/// the choice is the choice among the rest.
pub proof fn lemma_chosen_after_rejections(
    world: WorldView,
    ship_middle: Point,
    draws: Seq<(u32, u32)>,
    k: int,
)
    requires
        0 <= k <= draws.len(),
        forall|i: int|
            0 <= i < k ==> !safely_apart(#[trigger] candidate(world, draws, i), ship_middle),
    ensures
        chosen_position(world, ship_middle, draws) == chosen_position(
            world,
            ship_middle,
            draws.skip(k),
        ),
    decreases k,
{
    if k == 0 {
        assert(draws.skip(0) =~= draws);
    } else {
        let rest = draws.drop_first();
        assert(!safely_apart(candidate(world, draws, 0), ship_middle));
        assert forall|i: int| 0 <= i < k - 1 implies !safely_apart(
            #[trigger] candidate(world, rest, i),
            ship_middle,
        ) by {
            assert(candidate(world, rest, i) == candidate(world, draws, i + 1));
        }
        lemma_chosen_after_rejections(world, ship_middle, rest, k - 1);
        assert(rest.skip(k - 1) =~= draws.skip(k));
    }
}

/// Every place that `spawn_position` may find lies in the world, at least
/// the safe distance from the ship.
pub proof fn lemma_spawned_is_safe(p: Point, ship_middle: Point, world: WorldView)
    requires
        world.wf(),
        spawned_at(p, ship_middle, world),
    ensures
        safely_apart(p, ship_middle),
        0 <= p.x < world.width,
        0 <= p.y < world.height,
{
    let draws = choose|draws: Seq<(u32, u32)>| #[trigger]
        drawn_until_safe(world, ship_middle, draws) && p == chosen_position(
            world,
            ship_middle,
            draws,
        );
    lemma_chosen_is_safe(world, ship_middle, draws);
}

/// Whatever the pairs, the place they give lies in the world, at least the
/// safe distance from the ship.
pub proof fn lemma_chosen_is_safe(world: WorldView, ship_middle: Point, draws: Seq<(u32, u32)>)
    requires
        world.wf(),
    ensures
        safely_apart(chosen_position(world, ship_middle, draws), ship_middle),
        0 <= chosen_position(world, ship_middle, draws).x < world.width,
        0 <= chosen_position(world, ship_middle, draws).y < world.height,
    decreases draws.len(),
{
    if draws.len() == 0 {
        lemma_farthest_corner_is_safe(world, ship_middle);
    } else if !safely_apart(candidate(world, draws, 0), ship_middle) {
        lemma_chosen_is_safe(world, ship_middle, draws.drop_first());
    }
}

/// The place for a new barbell that the given drawn pairs give.
pub fn choose_position(
    world: &World,
    ship_middle: Vector2,
    draws: &Vec<(u32, u32)>,
) -> (p: Vector2)
    requires
        world.wf(),
    ensures
        p@ == chosen_position(world@, ship_middle@, draws@),
        safely_apart(p@, ship_middle@),
        0 <= p.x < world@.width,
        0 <= p.y < world@.height,
{
    proof {
        lemma_chosen_is_safe(world@, ship_middle@, draws@);
    }
    let mut i: usize = 0;
    while i < draws.len()
        invariant
            world.wf(),
            i <= draws@.len(),
            forall|j: int|
                0 <= j < i ==> !safely_apart(
                    #[trigger] candidate(world@, draws@, j),
                    ship_middle@,
                ),
        decreases draws@.len() - i,
    {
        let pair: (u32, u32) = draws[i];
        let position: Vector2 = world.position_from_draws(pair.0, pair.1);
        if is_safely_apart(position, ship_middle) {
            proof {
                lemma_chosen_after_rejections(world@, ship_middle@, draws@, i as int);
                assert(candidate(world@, draws@.skip(i as int), 0) == position@);
            }
            return position;
        }
        i = i + 1;
    }
    proof {
        lemma_chosen_after_rejections(world@, ship_middle@, draws@, draws@.len() as int);
    }
    world.farthest_corner(ship_middle)
}

/// A position drawn in the world: two draws, each reduced modulo a side.
pub fn random_position(world: &World, generator: &macroquad::rand::RandGenerator) -> (p: Vector2)
    requires
        world.wf(),
    ensures
        exists|pair: (u32, u32)| p@ == world@.position_from_draws(pair.0, pair.1),
        0 <= p.x < world@.width,
        0 <= p.y < world@.height,
{
    let x_draw: u32 = generator.rand();
    let y_draw: u32 = generator.rand();
    let p: Vector2 = world.position_from_draws(x_draw, y_draw);
    proof {
        let pair = (x_draw, y_draw);
        assert(p@ == world@.position_from_draws(pair.0, pair.1));
    }
    p
}

/// A place for a new barbell, at least the safe distance from the ship's
/// middle.
///
/// Positions are drawn until one is far enough away. After `SPAWN_ATTEMPTS`
/// draws that were too near, the corner of the world farthest from the ship
/// is taken, which is always far enough.
pub fn spawn_position(
    ship_middle: Vector2,
    world: &World,
    generator: &macroquad::rand::RandGenerator,
) -> (p: Vector2)
    requires
        world.wf(),
    ensures
        spawned_at(p@, ship_middle@, world@),
        safely_apart(p@, ship_middle@),
        0 <= p.x < world@.width,
        0 <= p.y < world@.height,
{
    let ghost mut draws: Seq<(u32, u32)> = Seq::empty();
    let mut attempts: u32 = 0;
    while attempts < SPAWN_ATTEMPTS
        invariant
            world.wf(),
            attempts <= SPAWN_ATTEMPTS,
            draws.len() == attempts,
            forall|i: int|
                0 <= i < draws.len() ==> !safely_apart(
                    #[trigger] candidate(world@, draws, i),
                    ship_middle@,
                ),
        decreases SPAWN_ATTEMPTS - attempts,
    {
        let position: Vector2 = random_position(world, generator);
        proof {
            let pair = choose|pair: (u32, u32)|
                position@ == world@.position_from_draws(pair.0, pair.1);
            let ghost rejected = draws;
            draws = draws.push(pair);
            assert forall|i: int| 0 <= i < rejected.len() implies candidate(world@, draws, i)
                == candidate(world@, rejected, i) by {
                assert(draws[i] == rejected[i]);
            }
            assert(candidate(world@, draws, rejected.len() as int) == position@);
        }
        if is_safely_apart(position, ship_middle) {
            proof {
                let last = draws.len() - 1;
                lemma_chosen_after_rejections(world@, ship_middle@, draws, last);
                assert(candidate(world@, draws.skip(last), 0) == position@);
                assert(drawn_until_safe(world@, ship_middle@, draws));
            }
            return position;
        }
        attempts = attempts + 1;
    }
    proof {
        lemma_chosen_after_rejections(world@, ship_middle@, draws, draws.len() as int);
        assert(drawn_until_safe(world@, ship_middle@, draws));
    }
    world.farthest_corner(ship_middle)
}

} // verus!
