//! The verified core of a 2D rigid-body collision engine.
//!
//! Coordinates, times and masses are IEEE-754 binary64 numbers, held by
//! their bit patterns ([`Scalar`]). Whatever only moves, orders or compares
//! such numbers is done here and proved:
//!
//! - the data model: points, segments, polygons with their edges and
//!   bounding extents, bodies, and the world with its identifiers;
//! - the order of the numbers itself, with the proof that the order of the
//!   bit patterns is the order of the numbers they encode ([`number`]);
//! - the decisions of the collision predicates: how the projections of two
//!   shapes lie on an axis ([`interval`]), which translation is the least
//!   ([`translation`]), when two moving shapes first touch ([`sweep`]), and
//!   the thresholds of the segment intersection and of the point test
//!   ([`collision`]);
//! - the course of an update of the world: what is to be done next, in
//!   which order the pairs are tested, which contact comes first, how the
//!   two bodies share the response, and when the update ends ([`update`],
//!   [`step`], [`response`]).
//!
//! Rounded arithmetic (sums, products, quotients, roots, trigonometry) is
//! not done here. The caller computes and hands the results in as `Scalar`
//! values; every function that takes such results says so.

pub mod body;
pub mod collision;
pub mod interval;
pub mod number;
pub mod point;
pub mod polygon;
pub mod response;
pub mod scalar;
pub mod segment;
pub mod step;
pub mod sweep;
pub mod translation;
pub mod update;
pub mod world;

pub use crate::body::Body;
pub use crate::point::Point;
pub use crate::point::Vector;
pub use crate::polygon::Polygon;
pub use crate::scalar::Scalar;
pub use crate::segment::Segment;
pub use crate::world::World;
