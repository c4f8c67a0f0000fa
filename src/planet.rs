use vstd::prelude::*;
use crate::geometry::{dist2, distance_squared, isqrt, unbounded};

verus! {

/// A celestial body: a stable id, a position on the plane, and the game state it carries.
#[derive(Clone, Copy, Debug, PartialEq, Eq, Structural)]
pub struct Planet {
    pub id: usize,
    pub x: i32,
    pub y: i32,
    pub resources: u64,
    pub growth: u64,
    pub owner: Option<usize>,
    pub units: u64,
}

/// Squared distance between the positions of two bodies.
pub open spec fn planet_dist2(a: Planet, b: Planet) -> int {
    dist2(a.x as int, a.y as int, b.x as int, b.y as int)
}

/// Whether the distance between two bodies lies strictly between `min` and `max`.
pub open spec fn spaced_within(a: Planet, b: Planet, min: int, max: int) -> bool {
    min * min < planet_dist2(a, b) && planet_dist2(a, b) < max * max
}

impl Planet {
    /// A body at `(x, y)` with no resources, no owner and no units.
    pub fn new(id: usize, x: i32, y: i32) -> (r: Planet)
        ensures
            r == (Planet { id, x, y, resources: 0, growth: 0, owner: None, units: 0 }),
    {
        Planet { id, x, y, resources: 0, growth: 0, owner: None, units: 0 }
    }

    /// A snapshot of the body's properties.
    pub fn properties(&self) -> (r: Planet)
        ensures
            r == *self,
    {
        *self
    }

    /// Squared distance from this body to `other`.
    pub fn distance_squared_to(&self, other: &Planet) -> (r: u128)
        ensures
            r as int == planet_dist2(*self, *other),
            (r as int) < unbounded(),
    {
        distance_squared(self.x, self.y, other.x, other.y)
    }

    /// Whether the distance to `other` is strictly between `min` and `max`.
    pub fn is_spaced_within(&self, other: &Planet, min: u64, max: u64) -> (r: bool)
        ensures
            r == spaced_within(*self, *other, min as int, max as int),
    {
        let d = self.distance_squared_to(other);
        assert(min as u128 * min as u128 <= u128::MAX) by (nonlinear_arith)
            requires
                min <= u64::MAX,
        ;
        assert(max as u128 * max as u128 <= u128::MAX) by (nonlinear_arith)
            requires
                max <= u64::MAX,
        ;
        let lo: u128 = min as u128 * min as u128;
        let hi: u128 = max as u128 * max as u128;
        lo < d && d < hi
    }
}

/// The Euclidean distance between two bodies, rounded down.
pub fn distance_between(a: &Planet, b: &Planet) -> (r: u64)
    ensures
        r as int * r as int <= planet_dist2(*a, *b),
        planet_dist2(*a, *b) < (r as int + 1) * (r as int + 1),
{
    isqrt(a.distance_squared_to(b))
}

} // verus!
