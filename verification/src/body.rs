//! Rigid bodies.

use crate::interval::highest;
use crate::interval::is_maximum;
use crate::interval::is_minimum;
use crate::interval::lowest;
use crate::point::Point;
use crate::point::Vector;
use crate::polygon::xs;
use crate::polygon::ys;
use crate::polygon::Polygon;
use crate::scalar::Scalar;
use vstd::prelude::*;

verus! {

/// A shape with the physical attributes that the simulation reads.
pub struct Body {
    pub shape: Polygon,
    /// Non-negative, or positive infinity for a body that nothing moves.
    pub mass: Scalar,
    pub friction: Scalar,
    pub velocity: Vector,
    /// Exempt from friction in a collision response.
    pub frictionless: bool,
    /// Exempt from gravity.
    pub gravityless: bool,
}

impl Body {
    /// A body at rest with the given shape and attributes.
    pub fn new(
        shape: Polygon,
        mass: Scalar,
        friction: Scalar,
        frictionless: bool,
        gravityless: bool,
    ) -> (b: Body)
        ensures
            b == Body::at_rest(shape, mass, friction, frictionless, gravityless),
    {
        Body { shape, mass, friction, velocity: Point::zero(), frictionless, gravityless }
    }

    /// The body that `new` makes: the given attributes and velocity zero.
    pub open spec fn at_rest(
        shape: Polygon,
        mass: Scalar,
        friction: Scalar,
        frictionless: bool,
        gravityless: bool,
    ) -> Body {
        Body {
            shape,
            mass,
            friction,
            velocity: Point { x: Scalar { bits: 0 }, y: Scalar { bits: 0 } },
            frictionless,
            gravityless,
        }
    }

    /// The least first coordinate of the shape.
    pub fn left(&self) -> (r: Scalar)
        ensures
            r == lowest(xs(self.shape@)),
            is_minimum(r, xs(self.shape@)),
    {
        self.shape.left()
    }

    /// The greatest first coordinate of the shape.
    pub fn right(&self) -> (r: Scalar)
        ensures
            r == highest(xs(self.shape@)),
            is_maximum(r, xs(self.shape@)),
    {
        self.shape.right()
    }

    /// The greatest second coordinate of the shape.
    pub fn top(&self) -> (r: Scalar)
        ensures
            r == highest(ys(self.shape@)),
            is_maximum(r, ys(self.shape@)),
    {
        self.shape.top()
    }

    /// The least second coordinate of the shape.
    pub fn bottom(&self) -> (r: Scalar)
        ensures
            r == lowest(ys(self.shape@)),
            is_minimum(r, ys(self.shape@)),
    {
        self.shape.bottom()
    }
}

} // verus!
