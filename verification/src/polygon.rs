//! Polygons as cyclic vertex sequences.

use crate::interval::highest;
use crate::interval::is_maximum;
use crate::interval::is_minimum;
use crate::interval::lowest;
use crate::interval::Interval;
use crate::point::Point;
use crate::scalar::Scalar;
use crate::segment::Segment;
use vstd::prelude::*;

verus! {

/// A closed polygon: at least three vertices, each joined to the next and
/// the last to the first. Convexity and winding are the caller's affair.
#[derive(Debug, PartialEq)]
pub struct Polygon {
    pub vertices: Vec<Point>,
}

impl View for Polygon {
    type V = Seq<Point>;

    open spec fn view(&self) -> Seq<Point> {
        self.vertices@
    }
}

/// The first coordinates of a vertex sequence.
pub open spec fn xs(s: Seq<Point>) -> Seq<Scalar> {
    s.map_values(|p: Point| p.x)
}

/// The second coordinates of a vertex sequence.
pub open spec fn ys(s: Seq<Point>) -> Seq<Scalar> {
    s.map_values(|p: Point| p.y)
}

/// The vertex that follows vertex `i` in the cyclic sequence `s`.
pub open spec fn successor(s: Seq<Point>, i: int) -> Point {
    if i + 1 == s.len() {
        s[0]
    } else {
        s[i + 1]
    }
}

/// The edge that leaves vertex `i` of the cyclic sequence `s`.
pub open spec fn edge(s: Seq<Point>, i: int) -> Segment {
    Segment { a: s[i], b: successor(s, i) }
}

impl Polygon {
    /// A polygon has at least three vertices.
    pub open spec fn wf(&self) -> bool {
        self@.len() >= 3
    }

    /// The polygon with the given vertices, in their order.
    pub fn new(v: &Vec<Point>) -> (p: Polygon)
        requires
            v@.len() >= 3,
        ensures
            p@ == v@,
            p.wf(),
    {
        Polygon { vertices: v.clone() }
    }

    /// The edges in vertex order: edge `i` runs from vertex `i` to the next
    /// vertex, and the last edge closes the polygon. There are as many edges
    /// as vertices.
    pub fn segments(&self) -> (res: Vec<Segment>)
        requires
            self@.len() >= 1,
        ensures
            res@.len() == self@.len(),
            forall|i: int| 0 <= i < self@.len() ==> res@[i] == edge(self@, i),
    {
        let len: usize = self.vertices.len();
        let mut res: Vec<Segment> = Vec::with_capacity(len);
        let mut i: usize = 0;
        while i < len - 1
            invariant
                len == self@.len(),
                len >= 1,
                i <= len - 1,
                res@.len() == i,
                forall|j: int| 0 <= j < i ==> res@[j] == edge(self@, j),
            decreases len - i,
        {
            res.push(Segment::from_points(self.vertices[i], self.vertices[i + 1]));
            i = i + 1;
        }
        res.push(Segment::from_points(self.vertices[len - 1], self.vertices[0]));
        res
    }

    /// The first coordinates of the vertices, or the second ones.
    fn coordinates(&self, vertical: bool) -> (r: Vec<Scalar>)
        ensures
            r@ == if vertical { ys(self@) } else { xs(self@) },
    {
        let mut r: Vec<Scalar> = Vec::with_capacity(self.vertices.len());
        let mut i: usize = 0;
        while i < self.vertices.len()
            invariant
                i <= self@.len(),
                r@.len() == i,
                forall|j: int| 0 <= j < i ==> r@[j] == if vertical { self@[j].y } else { self@[j].x },
            decreases self@.len() - i,
        {
            let p: Point = self.vertices[i];
            r.push(if vertical { p.y } else { p.x });
            i = i + 1;
        }
        r
    }

    /// The least first coordinate of the vertices.
    pub fn left(&self) -> (r: Scalar)
        ensures
            r == lowest(xs(self@)),
            is_minimum(r, xs(self@)),
    {
        Interval::of(&self.coordinates(false)).min
    }

    /// The greatest first coordinate of the vertices.
    pub fn right(&self) -> (r: Scalar)
        ensures
            r == highest(xs(self@)),
            is_maximum(r, xs(self@)),
    {
        Interval::of(&self.coordinates(false)).max
    }

    /// The greatest second coordinate of the vertices.
    pub fn top(&self) -> (r: Scalar)
        ensures
            r == highest(ys(self@)),
            is_maximum(r, ys(self@)),
    {
        Interval::of(&self.coordinates(true)).max
    }

    /// The least second coordinate of the vertices.
    pub fn bottom(&self) -> (r: Scalar)
        ensures
            r == lowest(ys(self@)),
            is_minimum(r, ys(self@)),
    {
        Interval::of(&self.coordinates(true)).min
    }
}

} // verus!
