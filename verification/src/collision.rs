//! Whether the ship touches a barbell, and where.
//!
//! Both predicates read the landmarks that the two shapes last reloaded;
//! neither recomputes them.

use crate::barbell::{Barbell, BarbellView};
use crate::geometry::{Point, Vector2};
use crate::segment::{segments_intersect, segments_meet};
use crate::ship::{Ship, ShipView};
use vstd::prelude::*;

verus! {

impl ShipView {
    /// Whether any of the three edges of the ship's triangle meets the
    /// segment from `p` to `q`.
    pub open spec fn edge_meets(self, p: Point, q: Point) -> bool {
        ||| segments_meet(self.left, self.right, p, q)
        ||| segments_meet(self.left, self.top, p, q)
        ||| segments_meet(self.right, self.top, p, q)
    }

    /// Whether the ship touches a bell: an edge of its triangle meets one of
    /// the four arms that run from an end of the bar to a tip of the bell at
    /// that end.
    #[verifier::opaque]
    pub open spec fn hits_bells(self, barbell: BarbellView) -> bool {
        ||| self.edge_meets(barbell.left, barbell.left_bell_top)
        ||| self.edge_meets(barbell.left, barbell.left_bell_bot)
        ||| self.edge_meets(barbell.right, barbell.right_bell_top)
        ||| self.edge_meets(barbell.right, barbell.right_bell_bot)
    }

    /// Whether the ship touches the bar: an edge of its triangle meets the
    /// segment between the two ends of the bar.
    #[verifier::opaque]
    pub open spec fn hits_center(self, barbell: BarbellView) -> bool {
        self.edge_meets(barbell.left, barbell.right)
    }
}

impl Ship {
    /// Whether any edge of the ship's triangle meets the segment from `p` to
    /// `q`.
    pub fn edge_meets(&self, p: Vector2, q: Vector2) -> (hit: bool)
        ensures
            hit == self@.edge_meets(p@, q@),
    {
        let left: Vector2 = self.left();
        let right: Vector2 = self.right();
        let top: Vector2 = self.top();
        segments_intersect(left, right, p, q) || segments_intersect(left, top, p, q)
            || segments_intersect(right, top, p, q)
    }

    /// Whether the ship touches a bell of the barbell.
    pub fn hits_bells(&self, barbell: &Barbell) -> (hit: bool)
        ensures
            hit == self@.hits_bells(barbell@),
    {
        reveal(ShipView::hits_bells);
        let left: Vector2 = barbell.left();
        let right: Vector2 = barbell.right();
        self.edge_meets(left, barbell.left_bell_top()) || self.edge_meets(
            left,
            barbell.left_bell_bot(),
        ) || self.edge_meets(right, barbell.right_bell_top()) || self.edge_meets(
            right,
            barbell.right_bell_bot(),
        )
    }

    /// Whether the ship touches the bar of the barbell.
    pub fn hits_center(&self, barbell: &Barbell) -> (hit: bool)
        ensures
            hit == self@.hits_center(barbell@),
    {
        reveal(ShipView::hits_center);
        self.edge_meets(barbell.left(), barbell.right())
    }
}

} // verus!
