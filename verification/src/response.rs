//! The rules by which two bodies share a collision.

use crate::body::Body;
use crate::scalar::Scalar;
use crate::scalar::INFINITY_BITS;
use vstd::prelude::*;

verus! {

/// How much of the velocity along the contact normal the first of two
/// colliding bodies contributes, the second contributing the rest.
#[derive(Clone, Copy, Debug, PartialEq, Eq, Structural)]
pub enum MassShare {
    /// Equal masses: one half.
    Half,
    /// The first body cannot be moved: all of it.
    All,
    /// The second body cannot be moved: none of it.
    Nothing,
    /// The mass of the first over the sum of both.
    Proportional,
}

/// The share that goes with two masses: one half where they are equal, else
/// all or nothing where the first or the second is positive infinity, else
/// in proportion.
pub open spec fn share_of(a: Scalar, b: Scalar) -> MassShare {
    if a.spec_eq(b) {
        MassShare::Half
    } else if a.spec_eq(Scalar { bits: INFINITY_BITS }) {
        MassShare::All
    } else if b.spec_eq(Scalar { bits: INFINITY_BITS }) {
        MassShare::Nothing
    } else {
        MassShare::Proportional
    }
}

/// The share of the first of two masses.
pub fn mass_share(a: Scalar, b: Scalar) -> (r: MassShare)
    ensures
        r == share_of(a, b),
{
    let inf: Scalar = Scalar::from_bits(INFINITY_BITS);
    if a == b {
        MassShare::Half
    } else if a == inf {
        MassShare::All
    } else if b == inf {
        MassShare::Nothing
    } else {
        MassShare::Proportional
    }
}

/// Whether two colliding bodies keep their velocity across the contact
/// normal in full: one of them is exempt from friction. Otherwise each
/// body's friction takes its part of it.
pub fn slides(a: &Body, b: &Body) -> (r: bool)
    ensures
        r == (a.frictionless || b.frictionless),
{
    a.frictionless || b.frictionless
}

} // verus!
