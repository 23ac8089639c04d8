//! The thresholds by which the collision predicates decide.

use crate::scalar::Scalar;
use crate::scalar::EPSILON_BITS;
use vstd::prelude::*;

verus! {

/// The bit pattern of 1e-9: what is added to every overlap along an axis, so
/// that shapes that only touch still get a translation that parts them.
pub const SEPARATION_SLACK_BITS: u64 = 0x3E11_2E0B_E826_D695;

/// The bit pattern of the negated machine epsilon: the least parameter that
/// still counts as on a segment.
pub const PARAMETER_MIN_BITS: u64 = 0xBCB0_0000_0000_0000;

/// The bit pattern of one plus the machine epsilon: the greatest parameter
/// that still counts as on a segment.
pub const PARAMETER_MAX_BITS: u64 = 0x3FF0_0000_0000_0001;

/// A determinant this small leaves two lines without a single common point:
/// its absolute value is not above the machine epsilon, or it is a NaN.
pub open spec fn degenerate(det: Scalar) -> bool {
    !(Scalar { bits: EPSILON_BITS }).spec_lt(det.spec_abs())
}

/// The parameter lies between the two ends of a segment, the tolerance of
/// one machine epsilon on either side included.
pub open spec fn on_segment(t: Scalar) -> bool {
    (Scalar { bits: PARAMETER_MIN_BITS }).spec_le(t) && t.spec_le(
        Scalar { bits: PARAMETER_MAX_BITS },
    )
}

/// The point is not beyond the edge: where it lies relative to the edge,
/// multiplied by where the center of the shape lies, is not negative. A
/// point on the edge itself is not beyond it, and a product that is no
/// number decides nothing.
pub open spec fn within(side: Scalar) -> bool {
    !side.spec_lt(Scalar { bits: 0 })
}

/// Whether a point lies in a convex shape, given for every edge the product
/// of its offset from the edge and the offset of the center of the shape:
/// it does unless it is beyond some edge. The boundary belongs to the shape.
pub fn is_inside(sides: &Vec<Scalar>) -> (r: bool)
    ensures
        r == forall|k: int| 0 <= k < sides@.len() ==> within(#[trigger] sides@[k]),
{
    let zero: Scalar = Scalar::from_bits(0);
    let mut k: usize = 0;
    while k < sides.len()
        invariant
            k <= sides@.len(),
            zero.bits == 0,
            forall|j: int| 0 <= j < k ==> within(#[trigger] sides@[j]),
        decreases sides@.len() - k,
    {
        if sides[k] < zero {
            return false;
        }
        k = k + 1;
    }
    true
}

/// Whether the direction determinant of two lines is too small for them to
/// have a single common point. Parallel, anti-parallel and coincident lines
/// are all told apart from crossing ones here, and not from each other.
pub fn is_degenerate(det: Scalar) -> (r: bool)
    ensures
        r == degenerate(det),
{
    !(det.abs() > Scalar::from_bits(EPSILON_BITS))
}

/// Whether the common point of two lines, given by its parameter on each,
/// lies on both segments. Both ends of a segment count as on it.
pub fn is_on_both(t: Scalar, u: Scalar) -> (r: bool)
    ensures
        r == (on_segment(t) && on_segment(u)),
        (Scalar { bits: 0 }).spec_le(t) && t.spec_le(Scalar { bits: crate::scalar::ONE_BITS })
            && (Scalar { bits: 0 }).spec_le(u) && u.spec_le(Scalar { bits: crate::scalar::ONE_BITS })
            ==> r,
{
    let lo: Scalar = Scalar::from_bits(PARAMETER_MIN_BITS);
    let hi: Scalar = Scalar::from_bits(PARAMETER_MAX_BITS);
    t >= lo && t <= hi && u >= lo && u <= hi
}

} // verus!
