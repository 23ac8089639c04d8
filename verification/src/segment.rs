//! Directed segments.

use crate::point::Point;
use vstd::prelude::*;
use vstd::std_specs::cmp::PartialEqSpecImpl;

verus! {

/// A segment directed from `a` to `b`.
#[derive(Clone, Copy, Debug)]
pub struct Segment {
    pub a: Point,
    pub b: Point,
}

impl Segment {
    /// Equality of segments as ordered pairs of points.
    pub open spec fn spec_eq(self, other: Segment) -> bool {
        self.a.spec_eq(other.a) && self.b.spec_eq(other.b)
    }

    /// The segment from `a` to `b`.
    pub fn from_points(a: Point, b: Point) -> (s: Segment)
        ensures
            s == (Segment { a, b }),
    {
        Segment { a, b }
    }

    /// The reference point of the line through the segment: its first
    /// endpoint, not its midpoint.
    pub fn center(self) -> (p: Point)
        ensures
            p == self.a,
    {
        self.a
    }
}

impl PartialEq for Segment {
    /// Two segments are equal when their endpoints are equal in order.
    fn eq(&self, other: &Segment) -> (r: bool) {
        self.a == other.a && self.b == other.b
    }
}

impl PartialEqSpecImpl for Segment {
    open spec fn obeys_eq_spec() -> bool {
        true
    }

    open spec fn eq_spec(&self, other: &Segment) -> bool {
        self.spec_eq(*other)
    }
}

} // verus!
