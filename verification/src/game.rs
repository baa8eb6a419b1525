//! The game: a ship, the barbells, a level and the game-over latch.
//!
//! One tick moves the ship, gives each barbell its turn until a bell touches
//! the ship, retires the barbells whose bar the ship touches, and fills the
//! field again, one level up, once it is empty.

use crate::barbell::{Barbell, BarbellView};
use crate::geometry::Vector2;
use crate::random::safely_apart;
use crate::ship::{Ship, ShipView};
use crate::space::{World, WorldView};
use vstd::prelude::*;

verus! {

/// The number of barbells placed per level: `BASE_COUNT` times the level.
pub const BASE_COUNT: usize = 2;

/// The rotation that one tick of steering gives the ship: seven degrees.
pub const STEER_STEP: i64 = 700;

/// What the player asks for in one tick.
#[derive(Clone, Copy, Debug, PartialEq, Eq)]
pub struct Controls {
    pub rotate_left: bool,
    pub rotate_right: bool,
    pub thrust_forward: bool,
    pub thrust_backward: bool,
    pub restart: bool,
}

/// The draw for the barbell at `i`: the `i`-th of `draws`, or 0, which flips
/// nothing, where there are fewer draws than barbells.
pub open spec fn draw_at(draws: Seq<u32>, i: int) -> u32 {
    if 0 <= i < draws.len() {
        draws[i]
    } else {
        0
    }
}

/// The barbell at `i` after its turn in a tick: spun by its draw, then
/// ticked.
#[verifier::opaque]
pub open spec fn turn_taken(
    barbells: Seq<BarbellView>,
    draws: Seq<u32>,
    world: WorldView,
    i: int,
) -> BarbellView {
    barbells[i].spun(draw_at(draws, i)).ticked(world)
}

/// Whether one of the first `n` barbells, after its turn, touches the ship
/// with a bell.
pub open spec fn bell_hit_among(
    ship: ShipView,
    barbells: Seq<BarbellView>,
    draws: Seq<u32>,
    world: WorldView,
    n: int,
) -> bool {
    exists|i: int| 0 <= i < n && ship.hits_bells(#[trigger] turn_taken(barbells, draws, world, i))
}

/// The barbells after the ship has been held against each in turn: every
/// barbell takes its turn, up to and including the first that then touches
/// the ship with a bell; those after it stay as they were.
pub open spec fn swept(
    ship: ShipView,
    barbells: Seq<BarbellView>,
    draws: Seq<u32>,
    world: WorldView,
) -> Seq<BarbellView> {
    Seq::new(
        barbells.len(),
        |i: int|
            if bell_hit_among(ship, barbells, draws, world, i) {
                barbells[i]
            } else {
                turn_taken(barbells, draws, world, i)
            },
    )
}

/// The barbells whose bar the ship does not touch, in their order.
pub open spec fn survivors(ship: ShipView, barbells: Seq<BarbellView>) -> Seq<BarbellView> {
    barbells.filter(|b: BarbellView| !ship.hits_center(b))
}

/// The states of a sequence of barbells.
pub open spec fn views(barbells: Seq<Barbell>) -> Seq<BarbellView> {
    Seq::new(barbells.len(), |i: int| barbells[i]@)
}

/// Whether every barbell of a sequence is within the limits of the game.
pub open spec fn all_wf(barbells: Seq<Barbell>) -> bool {
    forall|i: int| 0 <= i < barbells.len() ==> (#[trigger] barbells[i]).wf()
}

/// Barbells are within the limits of the game exactly when their states are.
pub proof fn lemma_views_wf(barbells: Seq<Barbell>)
    ensures
        all_wf(barbells) <==> (forall|i: int|
            0 <= i < views(barbells).len() ==> (#[trigger] views(barbells)[i]).wf()),
{
    if all_wf(barbells) {
        assert forall|i: int| 0 <= i < views(barbells).len() implies (#[trigger] views(
            barbells,
        )[i]).wf() by {
            assert(barbells[i].wf());
        }
    }
    if forall|i: int| 0 <= i < views(barbells).len() ==> (#[trigger] views(barbells)[i]).wf() {
        assert forall|i: int| 0 <= i < barbells.len() implies (#[trigger] barbells[i]).wf() by {
            assert(views(barbells)[i].wf());
        }
    }
}

/// The state of a game, as mathematical values.
pub struct GameView {
    pub game_over: bool,
    pub ship: ShipView,
    pub barbells: Seq<BarbellView>,
    pub level: nat,
}

impl GameView {
    /// The ship and every barbell are within the limits of the game, and the
    /// level is at least 1.
    pub open spec fn wf(self) -> bool {
        &&& self.ship.wf()
        &&& self.level >= 1
        &&& forall|i: int| 0 <= i < self.barbells.len() ==> (#[trigger] self.barbells[i]).wf()
    }

    /// What holds of a game that was just started in `world`: it is not
    /// over, at level 1, the ship rests in the middle of the world, and
    /// `BASE_COUNT` barbells were placed for it.
    pub open spec fn opening(self, world: WorldView) -> bool {
        &&& !self.game_over
        &&& self.level == 1
        &&& self.ship == ShipView::at_rest(world.center())
        &&& self.barbells.len() == BASE_COUNT
        &&& forall|i: int|
            0 <= i < self.barbells.len() ==> (#[trigger] self.barbells[i]).newly_placed(
                self.ship.middle,
                world,
            )
    }

    /// Whether the ship's rotation leaves room for a step of steering either
    /// way within the 64 bits that hold it.
    pub open spec fn can_steer(self) -> bool {
        i64::MIN + STEER_STEP <= self.ship.rot <= i64::MAX - STEER_STEP
    }

    /// The game after the player's controls have been applied to the ship:
    /// a turn to the right, a turn to the left, a backward thrust and a
    /// forward thrust, each if asked for, in this order. A game that is over
    /// stays as it is.
    pub open spec fn steered(self, controls: Controls) -> GameView {
        if self.game_over {
            self
        } else {
            let s1 = if controls.rotate_right {
                self.ship.turned(STEER_STEP as int)
            } else {
                self.ship
            };
            let s2 = if controls.rotate_left {
                s1.turned(-STEER_STEP)
            } else {
                s1
            };
            let s3 = if controls.thrust_backward {
                s2.decelerated()
            } else {
                s2
            };
            let s4 = if controls.thrust_forward {
                s3.accelerated()
            } else {
                s3
            };
            GameView { ship: s4, ..self }
        }
    }

    /// The game one tick later, before the field is filled again, where
    /// `draws` decide the spin of the barbells.
    ///
    /// A game that is over stays as it is. Otherwise the ship is ticked and
    /// the barbells are swept. If a bell touches the ship the game is over,
    /// and no barbell is retired. If none does, the barbells whose bar the
    /// ship touches are retired.
    pub open spec fn advanced(self, world: WorldView, draws: Seq<u32>) -> GameView {
        if self.game_over {
            self
        } else {
            let ship = self.ship.ticked(world);
            let barbells = swept(ship, self.barbells, draws, world);
            if bell_hit_among(ship, self.barbells, draws, world, self.barbells.len() as int) {
                GameView { game_over: true, ship, barbells, level: self.level }
            } else {
                GameView {
                    game_over: false,
                    ship,
                    barbells: survivors(ship, barbells),
                    level: self.level,
                }
            }
        }
    }

    /// Whether this game stands in the middle of a sweep that began at
    /// `before`, with `ship` the ship as the tick moved it: the first `done`
    /// barbells have taken their turn, none of them touches the ship with a
    /// bell, and nothing else has changed.
    pub open spec fn in_sweep(
        self,
        before: GameView,
        ship: ShipView,
        draws: Seq<u32>,
        world: WorldView,
        done: int,
    ) -> bool {
        &&& self.game_over == before.game_over
        &&& self.level == before.level
        &&& self.ship == ship
        &&& self.barbells.len() == before.barbells.len()
        &&& 0 <= done <= before.barbells.len()
        &&& forall|j: int|
            0 <= j < done ==> #[trigger] self.barbells[j] == turn_taken(
                before.barbells,
                draws,
                world,
                j,
            )
        &&& forall|j: int|
            done <= j < before.barbells.len() ==> #[trigger] self.barbells[j]
                == before.barbells[j]
        &&& !bell_hit_among(ship, before.barbells, draws, world, done)
    }

    /// Whether `after` is this game one level up: the level is one higher,
    /// `BASE_COUNT` times the new level barbells were placed for the ship
    /// behind those already there, and nothing else changed.
    pub open spec fn leveled_up_to(self, after: GameView, world: WorldView) -> bool {
        &&& after.game_over == self.game_over
        &&& after.ship == self.ship
        &&& after.level == self.level + 1
        &&& after.barbells.len() == self.barbells.len() + BASE_COUNT * after.level
        &&& forall|i: int|
            0 <= i < self.barbells.len() ==> #[trigger] after.barbells[i] == self.barbells[i]
        &&& forall|i: int|
            self.barbells.len() <= i < after.barbells.len() ==> (
            #[trigger] after.barbells[i]).newly_placed(self.ship.middle, world)
    }

    /// Whether `after` may be this game one tick later, for some draws.
    ///
    /// A game that is over stays as it is. Otherwise the game advances by
    /// some draws; if that leaves it going with an empty field, it goes one
    /// level up.
    pub open spec fn updates_to(self, after: GameView, world: WorldView) -> bool {
        exists|draws: Seq<u32>|
            {
                let mid = #[trigger] self.advanced(world, draws);
                if !mid.game_over && mid.barbells.len() == 0 {
                    mid.leveled_up_to(after, world)
                } else {
                    after == mid
                }
            }
    }
}

/// The end of a sweep. Where the first `done` barbells have taken their turn
/// and only the last of them, if any, touches the ship with a bell, the
/// barbells are the swept ones; and a bell touches the ship in the sweep
/// exactly if that last one does.
proof fn lemma_swept(
    now: GameView,
    before: GameView,
    ship: ShipView,
    draws: Seq<u32>,
    world: WorldView,
    done: int,
    hit: bool,
)
    requires
        now.barbells.len() == before.barbells.len(),
        0 <= done <= before.barbells.len(),
        hit ==> done >= 1 && ship.hits_bells(turn_taken(before.barbells, draws, world, done - 1)),
        !hit ==> done == before.barbells.len(),
        !bell_hit_among(ship, before.barbells, draws, world, if hit { done - 1 } else { done }),
        forall|j: int|
            0 <= j < done ==> #[trigger] now.barbells[j] == turn_taken(
                before.barbells,
                draws,
                world,
                j,
            ),
        forall|j: int|
            done <= j < before.barbells.len() ==> #[trigger] now.barbells[j] == before.barbells[j],
    ensures
        now.barbells == swept(ship, before.barbells, draws, world),
        bell_hit_among(ship, before.barbells, draws, world, before.barbells.len() as int) == hit,
{
    let n = before.barbells.len() as int;
    assert forall|j: int| 0 <= j < n implies (#[trigger] now.barbells[j]) == swept(
        ship,
        before.barbells,
        draws,
        world,
    )[j] by {
        if j < done {
            assert(!bell_hit_among(ship, before.barbells, draws, world, j));
        } else {
            assert(hit);
            assert(bell_hit_among(ship, before.barbells, draws, world, j));
        }
    }
    assert(now.barbells =~= swept(ship, before.barbells, draws, world));
    if hit {
        assert(bell_hit_among(ship, before.barbells, draws, world, n));
    }
}

/// One more turn in a sweep. Where the barbell at `done` has taken its
/// turn and nothing else has changed, it is the barbell that the sweep
/// gives; and the sweep goes on unless it touches the ship with a bell.
proof fn lemma_turn_in_sweep(
    prev: GameView,
    now: GameView,
    before: GameView,
    ship: ShipView,
    draws: Seq<u32>,
    world: WorldView,
    done: int,
)
    requires
        prev.in_sweep(before, ship, draws, world, done),
        done < before.barbells.len(),
        now.game_over == prev.game_over,
        now.level == prev.level,
        now.ship == prev.ship,
        now.barbells.len() == prev.barbells.len(),
        now.barbells[done] == prev.barbells[done].spun(draw_at(draws, done)).ticked(world),
        forall|j: int|
            0 <= j < prev.barbells.len() && j != done ==> #[trigger] now.barbells[j]
                == prev.barbells[j],
    ensures
        now.barbells[done] == turn_taken(before.barbells, draws, world, done),
        forall|j: int|
            0 <= j < done + 1 ==> #[trigger] now.barbells[j] == turn_taken(
                before.barbells,
                draws,
                world,
                j,
            ),
        forall|j: int|
            done + 1 <= j < before.barbells.len() ==> #[trigger] now.barbells[j]
                == before.barbells[j],
        !ship.hits_bells(now.barbells[done]) ==> now.in_sweep(
            before,
            ship,
            draws,
            world,
            done + 1,
        ),
{
    reveal(turn_taken);
    assert(prev.barbells[done] == before.barbells[done]);
    assert forall|j: int| 0 <= j < done + 1 implies #[trigger] now.barbells[j] == turn_taken(
        before.barbells,
        draws,
        world,
        j,
    ) by {
        if j < done {
            assert(now.barbells[j] == prev.barbells[j]);
        }
    }
    assert forall|j: int| done + 1 <= j < before.barbells.len() implies #[trigger] now.barbells[j]
        == before.barbells[j] by {
        assert(now.barbells[j] == prev.barbells[j]);
    }
    if !ship.hits_bells(now.barbells[done]) {
        if bell_hit_among(ship, before.barbells, draws, world, done + 1) {
            let j = choose|j: int|
                0 <= j < done + 1 && ship.hits_bells(
                    #[trigger] turn_taken(before.barbells, draws, world, j),
                );
            if j < done {
                assert(bell_hit_among(ship, before.barbells, draws, world, done));
            }
        }
    }
}

/// A draw taken for the next barbell changes nothing of the turns already
/// taken.
proof fn lemma_sweep_with_one_more_draw(
    now: GameView,
    before: GameView,
    ship: ShipView,
    draws: Seq<u32>,
    draw: u32,
    world: WorldView,
    done: int,
)
    requires
        draws.len() == done,
        now.in_sweep(before, ship, draws, world, done),
    ensures
        now.in_sweep(before, ship, draws.push(draw), world, done),
        draw_at(draws.push(draw), done) == draw,
{
    reveal(turn_taken);
    let more = draws.push(draw);
    assert forall|j: int| 0 <= j < done implies turn_taken(before.barbells, more, world, j)
        == turn_taken(before.barbells, draws, world, j) by {
        assert(draw_at(more, j) == draw_at(draws, j));
    }
    if bell_hit_among(ship, before.barbells, more, world, done) {
        let j = choose|j: int|
            0 <= j < done && ship.hits_bells(
                #[trigger] turn_taken(before.barbells, more, world, j),
            );
        assert(ship.hits_bells(turn_taken(before.barbells, draws, world, j)));
    }
}

/// Once a game is over, a tick changes nothing: not the ship, not the
/// barbells, not the level, and the game stays over.
pub proof fn lemma_game_over_latches(game: GameView, after: GameView, world: WorldView)
    requires
        game.game_over,
        game.updates_to(after, world),
    ensures
        after == game,
{
}

/// A tick never lowers the level and never brings a game that is over back.
pub proof fn lemma_level_only_rises(game: GameView, after: GameView, world: WorldView)
    requires
        game.updates_to(after, world),
    ensures
        after.level == game.level || after.level == game.level + 1,
        game.game_over ==> after.game_over,
{
}

/// A tick on a game that is going with an empty field fills it, one level
/// up: with `BASE_COUNT` times the new level barbells, each placed at least
/// the safe distance from the ship as the tick moved it.
pub proof fn lemma_empty_field_levels_up(game: GameView, after: GameView, world: WorldView)
    requires
        !game.game_over,
        game.barbells.len() == 0,
        game.updates_to(after, world),
    ensures
        !after.game_over,
        after.level == game.level + 1,
        after.barbells.len() == BASE_COUNT * after.level,
        after.ship == game.ship.ticked(world),
        forall|i: int|
            0 <= i < after.barbells.len() ==> safely_apart(
                (#[trigger] after.barbells[i]).middle,
                after.ship.middle,
            ),
{
    let draws = choose|draws: Seq<u32>|
        {
            let mid = #[trigger] game.advanced(world, draws);
            if !mid.game_over && mid.barbells.len() == 0 {
                mid.leveled_up_to(after, world)
            } else {
                after == mid
            }
        };
    let ship = game.ship.ticked(world);
    assert(!bell_hit_among(ship, game.barbells, draws, world, 0));
    assert(swept(ship, game.barbells, draws, world).len() == 0);
    reveal(Seq::filter);
    assert(survivors(ship, swept(ship, game.barbells, draws, world)).len() == 0);
}

/// The game.
#[derive(Debug, PartialEq, Eq)]
pub struct Game {
    game_over: bool,
    ship: Ship,
    barbells: Vec<Barbell>,
    level: usize,
}

impl View for Game {
    type V = GameView;

    closed spec fn view(&self) -> GameView {
        GameView {
            game_over: self.game_over,
            ship: self.ship@,
            barbells: views(self.barbells@),
            level: self.level as nat,
        }
    }
}

/// A game is within the limits of the game exactly when its parts are.
proof fn lemma_game_wf(game: Game)
    ensures
        game.wf() <==> (game.ship.wf() && game.level >= 1 && all_wf(game.barbells@)),
{
    lemma_views_wf(game.barbells@);
    assert(game@.barbells == views(game.barbells@));
    if game.wf() {
        assert forall|i: int| 0 <= i < views(game.barbells@).len() implies (#[trigger] views(
            game.barbells@,
        )[i]).wf() by {
            assert(game@.barbells[i].wf());
        }
    }
    if game.ship.wf() && game.level >= 1 && all_wf(game.barbells@) {
        assert forall|i: int| 0 <= i < game@.barbells.len() implies (
        #[trigger] game@.barbells[i]).wf() by {
            assert(views(game.barbells@)[i].wf());
        }
    }
}

/// Places `count` new barbells for a ship whose middle is `ship_middle`,
/// behind those already there.
fn place_batch(
    barbells: &mut Vec<Barbell>,
    count: usize,
    ship_middle: Vector2,
    world: &World,
    generator: &macroquad::rand::RandGenerator,
)
    requires
        world.wf(),
        all_wf(old(barbells)@),
    ensures
        final(barbells)@.len() == old(barbells)@.len() + count,
        forall|i: int|
            0 <= i < old(barbells)@.len() ==> #[trigger] final(barbells)@[i]
                == old(barbells)@[i],
        forall|i: int|
            old(barbells)@.len() <= i < final(barbells)@.len() ==> (
            #[trigger] final(barbells)@[i])@.newly_placed(ship_middle@, world@),
        all_wf(final(barbells)@),
{
    let ghost before = barbells@;
    let mut placed: usize = 0;
    while placed < count
        invariant
            world.wf(),
            placed <= count,
            barbells@.len() == before.len() + placed,
            forall|i: int| 0 <= i < before.len() ==> #[trigger] barbells@[i] == before[i],
            forall|i: int|
                before.len() <= i < barbells@.len() ==> (#[trigger] barbells@[i])@.newly_placed(
                    ship_middle@,
                    world@,
                ),
            all_wf(barbells@),
        decreases count - placed,
    {
        let barbell: Barbell = Barbell::new(ship_middle, world, generator);
        barbells.push(barbell);
        placed = placed + 1;
    }
}

impl Game {
    /// Whether the ship and every barbell are within the limits of the game.
    pub open spec fn wf(&self) -> bool {
        self@.wf()
    }

    /// A new game in `world`: not over, at level 1, the ship at rest in the
    /// middle of the world, `BASE_COUNT` barbells placed for it.
    pub fn new(world: &World, generator: &macroquad::rand::RandGenerator) -> (game: Game)
        requires
            world.wf(),
        ensures
            game@.opening(world@),
            game.wf(),
    {
        let ship: Ship = Ship::new(world);
        let mut barbells: Vec<Barbell> = Vec::new();
        place_batch(&mut barbells, BASE_COUNT, ship.middle(), world, generator);
        let game = Game { game_over: false, ship, barbells, level: 1 };
        proof {
            lemma_game_wf(game);
        }
        game
    }

    /// A game with the given ship, barbells and level, not over, if the
    /// level is at least 1.
    pub fn from_parts(ship: Ship, barbells: Vec<Barbell>, level: usize) -> (game: Option<Game>)
        requires
            ship.wf(),
            all_wf(barbells@),
        ensures
            game is Some <==> level >= 1,
            game matches Some(g) ==> {
                &&& g.wf()
                &&& g@ == (GameView {
                    game_over: false,
                    ship: ship@,
                    barbells: views(barbells@),
                    level: level as nat,
                })
            },
    {
        if level < 1 {
            return None;
        }
        let game = Game { game_over: false, ship, barbells, level };
        proof {
            lemma_game_wf(game);
        }
        Some(game)
    }

    /// Applies the player's controls to the ship, unless the game is over.
    ///
    /// A step either way from the ship's rotation has to fit the 64 bits
    /// that hold it.
    pub fn steer(&mut self, controls: &Controls)
        requires
            old(self).wf(),
            !old(self)@.game_over ==> old(self)@.can_steer(),
        ensures
            final(self)@ == old(self)@.steered(*controls),
            final(self).wf(),
    {
        if self.game_over {
            return;
        }
        proof {
            lemma_game_wf(*self);
        }
        if controls.rotate_right {
            self.ship.rotate(STEER_STEP);
        }
        if controls.rotate_left {
            self.ship.rotate(-STEER_STEP);
        }
        if controls.thrust_backward {
            self.ship.decelerate();
        }
        if controls.thrust_forward {
            self.ship.accelerate();
        }
        proof {
            lemma_game_wf(*self);
        }
    }

    /// Gives the barbell at `i` its turn: spins it by `draw`, ticks it, and
    /// says whether it then touches the ship with a bell.
    fn take_turn(&mut self, i: usize, draw: u32, world: &World) -> (hit: bool)
        requires
            i < old(self).barbells@.len(),
            all_wf(old(self).barbells@),
            world.wf(),
        ensures
            final(self).game_over == old(self).game_over,
            final(self).ship == old(self).ship,
            final(self).level == old(self).level,
            final(self).barbells@.len() == old(self).barbells@.len(),
            all_wf(final(self).barbells@),
            final(self)@.barbells[i as int] == old(self)@.barbells[i as int].spun(draw).ticked(
                world@,
            ),
            forall|j: int|
                0 <= j < old(self).barbells@.len() && j != i
                    ==> #[trigger] final(self)@.barbells[j] == old(self)@.barbells[j],
            hit == final(self)@.ship.hits_bells(final(self)@.barbells[i as int]),
    {
        let mut barbell: Barbell = self.barbells[i];
        barbell.spin(draw);
        barbell.tick(world);
        self.barbells[i] = barbell;
        proof {
            assert forall|j: int| 0 <= j < old(self).barbells@.len() && j != i implies (
            #[trigger] self@.barbells[j]) == old(self)@.barbells[j] by {
                assert(self.barbells@[j] == old(self).barbells@[j]);
            }
        }
        self.ship.hits_bells(&barbell)
    }

    /// Retires the barbells whose bar the ship touches.
    fn retire(&mut self)
        requires
            all_wf(old(self).barbells@),
        ensures
            final(self).game_over == old(self).game_over,
            final(self).ship == old(self).ship,
            final(self).level == old(self).level,
            views(final(self).barbells@) == survivors(old(self).ship@, views(old(self).barbells@)),
            all_wf(final(self).barbells@),
    {
        let ghost ship = self.ship@;
        let ghost all = views(self.barbells@);
        let n: usize = self.barbells.len();
        let mut kept: Vec<Barbell> = Vec::new();
        let mut k: usize = 0;
        proof {
            reveal(Seq::filter);
            assert(all.take(0) =~= Seq::<BarbellView>::empty());
            assert(views(kept@) =~= survivors(ship, all.take(0)));
        }
        while k < n
            invariant
                k <= n,
                n == self.barbells@.len(),
                all == views(self.barbells@),
                self.ship@ == ship,
                *self == *old(self),
                views(kept@) == survivors(ship, all.take(k as int)),
                all_wf(self.barbells@),
                all_wf(kept@),
            decreases n - k,
        {
            let barbell: Barbell = self.barbells[k];
            let ghost kept_before = kept@;
            if !self.ship.hits_center(&barbell) {
                kept.push(barbell);
            }
            proof {
                reveal(Seq::filter);
                let prefix = all.take(k as int + 1);
                assert(prefix.drop_last() =~= all.take(k as int));
                assert(prefix.last() == barbell@);
                if !ship.hits_center(barbell@) {
                    assert(views(kept@) =~= views(kept_before).push(barbell@));
                }
            }
            k = k + 1;
        }
        proof {
            assert(all.take(n as int) =~= all);
        }
        self.barbells = kept;
    }

    /// Advances the game by one tick, before the field is filled again,
    /// with the given draws deciding the spin of the barbells.
    pub fn advance(&mut self, world: &World, draws: &Vec<u32>)
        requires
            old(self).wf(),
            world.wf(),
        ensures
            final(self)@ == old(self)@.advanced(world@, draws@),
            final(self).wf(),
    {
        if self.game_over {
            return;
        }
        let ghost before = self@;
        proof {
            lemma_game_wf(*self);
        }
        self.ship.tick(world);
        let ghost ship = self.ship@;
        let n: usize = self.barbells.len();
        let mut i: usize = 0;
        while i < n
            invariant
                world.wf(),
                i <= n,
                n == before.barbells.len(),
                before == old(self)@,
                before.wf(),
                !before.game_over,
                ship == before.ship.ticked(world@),
                self.ship.wf(),
                all_wf(self.barbells@),
                self@.in_sweep(before, ship, draws@, world@, i as int),
            decreases n - i,
        {
            let draw: u32 = if i < draws.len() {
                draws[i]
            } else {
                0
            };
            let ghost prev = self@;
            let hit: bool = self.take_turn(i, draw, world);
            proof {
                lemma_turn_in_sweep(prev, self@, before, ship, draws@, world@, i as int);
            }
            if hit {
                self.game_over = true;
                proof {
                    lemma_swept(self@, before, ship, draws@, world@, i as int + 1, true);
                    lemma_game_wf(*self);
                }
                return;
            }
            i = i + 1;
        }
        proof {
            lemma_swept(self@, before, ship, draws@, world@, n as int, false);
        }
        self.retire();
        proof {
            lemma_game_wf(*self);
        }
    }

    /// Takes the game one level up: raises the level by one and places
    /// `BASE_COUNT` times the new level barbells for the ship.
    pub fn level_up(&mut self, world: &World, generator: &macroquad::rand::RandGenerator)
        requires
            old(self).wf(),
            world.wf(),
            (old(self)@.level + 1) * BASE_COUNT <= usize::MAX,
        ensures
            old(self)@.leveled_up_to(final(self)@, world@),
            final(self).wf(),
    {
        proof {
            lemma_game_wf(*self);
        }
        self.level = self.level + 1;
        let count: usize = BASE_COUNT * self.level;
        place_batch(&mut self.barbells, count, self.ship.middle(), world, generator);
        proof {
            lemma_game_wf(*self);
        }
    }

    /// Advances the game by one tick.
    ///
    /// A game that is over stays as it is. Otherwise the ship is ticked and
    /// each barbell takes its turn, spun by a draw taken when its turn
    /// comes, until a bell touches the ship; if none does, the barbells
    /// whose bar the ship touches are retired, and if that leaves the field
    /// empty, the game goes one level up.
    pub fn update(&mut self, world: &World, generator: &macroquad::rand::RandGenerator)
        requires
            old(self).wf(),
            world.wf(),
            !old(self)@.game_over ==> (old(self)@.level + 1) * BASE_COUNT <= usize::MAX,
        ensures
            old(self)@.updates_to(final(self)@, world@),
            old(self)@.game_over ==> final(self)@ == old(self)@,
            final(self).wf(),
    {
        let ghost before = self@;
        let ghost mut draws: Seq<u32> = Seq::empty();
        if self.game_over {
            proof {
                assert(self@ == before.advanced(world@, draws));
            }
            return;
        }
        proof {
            lemma_game_wf(*self);
        }
        self.ship.tick(world);
        let ghost ship = self.ship@;
        let n: usize = self.barbells.len();
        let mut i: usize = 0;
        while i < n
            invariant
                world.wf(),
                i <= n,
                n == before.barbells.len(),
                before == old(self)@,
                before.wf(),
                !before.game_over,
                ship == before.ship.ticked(world@),
                self.ship.wf(),
                all_wf(self.barbells@),
                draws.len() == i,
                self@.in_sweep(before, ship, draws, world@, i as int),
            decreases n - i,
        {
            let draw: u32 = generator.rand();
            proof {
                lemma_sweep_with_one_more_draw(self@, before, ship, draws, draw, world@, i as int);
                draws = draws.push(draw);
            }
            let ghost prev = self@;
            let hit: bool = self.take_turn(i, draw, world);
            proof {
                lemma_turn_in_sweep(prev, self@, before, ship, draws, world@, i as int);
            }
            if hit {
                self.game_over = true;
                proof {
                    lemma_swept(self@, before, ship, draws, world@, i as int + 1, true);
                    lemma_game_wf(*self);
                    assert(self@ == before.advanced(world@, draws));
                }
                return;
            }
            i = i + 1;
        }
        proof {
            lemma_swept(self@, before, ship, draws, world@, n as int, false);
        }
        self.retire();
        proof {
            lemma_game_wf(*self);
            assert(self@ == before.advanced(world@, draws));
        }
        if self.barbells.len() == 0 {
            self.level_up(world, generator);
        }
    }

    /// One frame of play: what the driver loop decides between two
    /// renderings.
    ///
    /// While the game is over, nothing moves; a restart, if asked for,
    /// replaces the game by a new one. While it is going, the controls are
    /// applied to the ship and the game advances by one tick.
    pub fn frame(
        &mut self,
        controls: &Controls,
        world: &World,
        generator: &macroquad::rand::RandGenerator,
    )
        requires
            old(self).wf(),
            world.wf(),
            !old(self)@.game_over ==> old(self)@.can_steer(),
            !old(self)@.game_over ==> (old(self)@.level + 1) * BASE_COUNT <= usize::MAX,
        ensures
            old(self)@.game_over && !controls.restart ==> final(self)@ == old(self)@,
            old(self)@.game_over && controls.restart ==> final(self)@.opening(world@),
            !old(self)@.game_over ==> old(self)@.steered(*controls).updates_to(
                final(self)@,
                world@,
            ),
            final(self).wf(),
    {
        if self.game_over {
            if controls.restart {
                *self = Game::new(world, generator);
            }
            return;
        }
        self.steer(controls);
        self.update(world, generator);
    }

    /// Whether the game is over.
    pub fn is_over(&self) -> (over: bool)
        ensures
            over == self@.game_over,
    {
        self.game_over
    }

    /// The level.
    pub fn level(&self) -> (level: usize)
        ensures
            level == self@.level,
    {
        self.level
    }

    /// The ship.
    pub fn ship(&self) -> (ship: &Ship)
        ensures
            ship@ == self@.ship,
    {
        &self.ship
    }

    /// The barbells, in the order in which they were placed.
    pub fn barbells(&self) -> (barbells: &Vec<Barbell>)
        ensures
            views(barbells@) == self@.barbells,
    {
        &self.barbells
    }
}

} // verus!
