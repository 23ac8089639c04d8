//! Points of the plane, also used as vectors.

use crate::scalar::Scalar;
use vstd::prelude::*;
use vstd::std_specs::cmp::PartialEqSpecImpl;

verus! {

/// A point of the plane by its two coordinates. The same pair stands for a
/// vector where a displacement or a direction is meant.
#[derive(Clone, Copy, Debug)]
pub struct Point {
    pub x: Scalar,
    pub y: Scalar,
}

pub type Vector = Point;

impl Point {
    /// Equality of points as pairs of numbers.
    pub open spec fn spec_eq(self, other: Point) -> bool {
        self.x.spec_eq(other.x) && self.y.spec_eq(other.y)
    }

    /// The point with the given coordinates.
    pub fn new(x: Scalar, y: Scalar) -> (p: Point)
        ensures
            p == (Point { x, y }),
    {
        Point { x, y }
    }

    /// The origin: both coordinates are positive zero.
    pub fn zero() -> (p: Point)
        ensures
            p.x.bits == 0,
            p.y.bits == 0,
    {
        Point { x: Scalar::from_bits(0), y: Scalar::from_bits(0) }
    }

    /// Moves the point to the given coordinates.
    pub fn point_to(&mut self, x: Scalar, y: Scalar)
        ensures
            *final(self) == (Point { x, y }),
    {
        self.x = x;
        self.y = y;
    }

    /// The vector turned a quarter turn counter-clockwise, `(-y, x)`. No
    /// rounding is involved: the result has the same length exactly.
    pub fn perp(self) -> (p: Point)
        ensures
            p.x == self.y.spec_neg(),
            p.y == self.x,
    {
        Point { x: self.y.neg(), y: self.x }
    }
}

impl PartialEq for Point {
    /// Two points are equal when their coordinates are equal as numbers.
    fn eq(&self, other: &Point) -> (r: bool) {
        self.x == other.x && self.y == other.y
    }
}

impl PartialEqSpecImpl for Point {
    open spec fn obeys_eq_spec() -> bool {
        true
    }

    open spec fn eq_spec(&self, other: &Point) -> bool {
        self.spec_eq(*other)
    }
}

} // verus!
