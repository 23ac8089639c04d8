//! Extents of finite families of numbers, and how two extents lie to each
//! other on one axis.

use crate::scalar::Scalar;
use crate::scalar::INFINITY_BITS;
use crate::scalar::NEG_INFINITY_BITS;
use vstd::prelude::*;

verus! {

/// The least number of a sequence, NaNs passed over: the sequence folded
/// with `spec_min` from positive infinity.
pub open spec fn lowest(s: Seq<Scalar>) -> Scalar
    decreases s.len(),
{
    if s.len() == 0 {
        Scalar { bits: INFINITY_BITS }
    } else {
        lowest(s.drop_last()).spec_min(s.last())
    }
}

/// The greatest number of a sequence, NaNs passed over: the sequence folded
/// with `spec_max` from negative infinity.
pub open spec fn highest(s: Seq<Scalar>) -> Scalar
    decreases s.len(),
{
    if s.len() == 0 {
        Scalar { bits: NEG_INFINITY_BITS }
    } else {
        highest(s.drop_last()).spec_max(s.last())
    }
}

/// The extent of a family of numbers.
pub open spec fn extent(s: Seq<Scalar>) -> Interval {
    Interval { min: lowest(s), max: highest(s) }
}

/// Every member of `s` is a number strictly below every member of `t`.
pub open spec fn all_below(s: Seq<Scalar>, t: Seq<Scalar>) -> bool {
    forall|i: int, j: int|
        0 <= i < s.len() && 0 <= j < t.len() ==> (#[trigger] s[i]).spec_lt(#[trigger] t[j])
}

/// `m` is a number, no number of `s` is smaller, and `m` is either one of
/// them or, where `s` holds no number below it, positive infinity.
pub open spec fn is_minimum(m: Scalar, s: Seq<Scalar>) -> bool {
    &&& !m.nan()
    &&& forall|i: int| 0 <= i < s.len() && !(#[trigger] s[i]).nan() ==> m.rank() <= s[i].rank()
    &&& (m.bits == INFINITY_BITS || exists|i: int| 0 <= i < s.len() && #[trigger] s[i] == m)
}

/// `m` is a number, no number of `s` is larger, and `m` is either one of
/// them or, where `s` holds no number above it, negative infinity.
pub open spec fn is_maximum(m: Scalar, s: Seq<Scalar>) -> bool {
    &&& !m.nan()
    &&& forall|i: int| 0 <= i < s.len() && !(#[trigger] s[i]).nan() ==> s[i].rank() <= m.rank()
    &&& (m.bits == NEG_INFINITY_BITS || exists|i: int| 0 <= i < s.len() && #[trigger] s[i] == m)
}

/// The fold `lowest` yields a minimum of the sequence.
pub proof fn lemma_lowest_is_minimum(s: Seq<Scalar>)
    ensures
        is_minimum(lowest(s), s),
    decreases s.len(),
{
    if s.len() > 0 {
        let front = s.drop_last();
        lemma_lowest_is_minimum(front);
        let m = lowest(s);
        assert forall|i: int| 0 <= i < s.len() && !(#[trigger] s[i]).nan() implies m.rank()
            <= s[i].rank() by {
            if i < front.len() {
                assert(front[i] == s[i]);
            }
        }
    }
}

/// The fold `highest` yields a maximum of the sequence.
pub proof fn lemma_highest_is_maximum(s: Seq<Scalar>)
    ensures
        is_maximum(highest(s), s),
    decreases s.len(),
{
    if s.len() > 0 {
        let front = s.drop_last();
        lemma_highest_is_maximum(front);
        let m = highest(s);
        assert forall|i: int| 0 <= i < s.len() && !(#[trigger] s[i]).nan() implies s[i].rank()
            <= m.rank() by {
            if i < front.len() {
                assert(front[i] == s[i]);
            }
        }
    }
}

/// The stretch of an axis between a least and a greatest number.
#[derive(Clone, Copy, Debug)]
pub struct Interval {
    pub min: Scalar,
    pub max: Scalar,
}

/// How the second of two extents lies to the first on an axis.
#[derive(Clone, Copy, Debug, PartialEq, Eq, Structural)]
pub enum Overlap {
    /// It begins after the first has ended: the axis separates the shapes.
    Separated,
    /// It begins no later than the first ends, and ends later.
    Partial,
    /// It ends no later than the first.
    Nested,
}

/// Two extents on one axis. The axis is kept where the first extent begins
/// strictly below the second, and turned round otherwise, so that both are
/// looked at from the same side whichever of the two shapes comes first.
#[derive(Clone, Copy, Debug)]
pub struct AxisView {
    /// The first extent, mirrored where `flipped`.
    pub a: Interval,
    /// The second extent, mirrored where `flipped`.
    pub b: Interval,
    /// Whether the axis was turned round.
    pub flipped: bool,
    /// How `b` lies to `a`.
    pub overlap: Overlap,
}

impl Interval {
    /// Both ends are numbers and the lower end is not above the upper one.
    pub open spec fn wf(self) -> bool {
        self.min.spec_le(self.max)
    }

    /// The interval with both ends negated and exchanged.
    pub open spec fn spec_mirrored(self) -> Interval {
        Interval { min: self.max.spec_neg(), max: self.min.spec_neg() }
    }

    /// One interval ends strictly before the other begins.
    pub open spec fn disjoint(self, other: Interval) -> bool {
        self.max.spec_lt(other.min) || other.max.spec_lt(self.min)
    }

    /// The view of `self` against `other`: the axis is turned round when
    /// `self` does not begin strictly below `other`; then the second extent
    /// is nested if it ends no later than the first, partial if it begins no
    /// later than the first ends, and separated otherwise.
    pub open spec fn spec_against(self, other: Interval) -> AxisView {
        let flipped = other.min.spec_le(self.min);
        let a = if flipped { self.spec_mirrored() } else { self };
        let b = if flipped { other.spec_mirrored() } else { other };
        let overlap = if b.max.spec_le(a.max) {
            Overlap::Nested
        } else if b.min.spec_le(a.max) {
            Overlap::Partial
        } else {
            Overlap::Separated
        };
        AxisView { a, b, flipped, overlap }
    }

    /// The extent of a family of numbers: its least and its greatest member,
    /// NaNs passed over. Of an empty family, or one of NaNs only, the extent
    /// runs from positive to negative infinity.
    pub fn of(values: &Vec<Scalar>) -> (r: Interval)
        ensures
            is_minimum(r.min, values@),
            is_maximum(r.max, values@),
            r == extent(values@),
            (exists|i: int| 0 <= i < values@.len() && !(#[trigger] values@[i]).nan()) ==> r.wf(),
    {
        let mut min: Scalar = Scalar::from_bits(INFINITY_BITS);
        let mut max: Scalar = Scalar::from_bits(NEG_INFINITY_BITS);
        let mut i: usize = 0;
        while i < values.len()
            invariant
                i <= values@.len(),
                min == lowest(values@.take(i as int)),
                max == highest(values@.take(i as int)),
            decreases values@.len() - i,
        {
            proof {
                assert(values@.take(i + 1).drop_last() == values@.take(i as int));
            }
            min = min.min(values[i]);
            max = max.max(values[i]);
            i = i + 1;
        }
        proof {
            assert(values@.take(i as int) == values@);
            lemma_lowest_is_minimum(values@);
            lemma_highest_is_maximum(values@);
        }
        Interval { min, max }
    }

    /// The interval seen from the other side of the origin: both ends
    /// change sign and trade places.
    pub fn mirrored(self) -> (r: Interval)
        ensures
            r.min == self.max.spec_neg(),
            r.max == self.min.spec_neg(),
    {
        Interval { min: self.max.neg(), max: self.min.neg() }
    }

    /// Looks at `self` against `other` on their common axis. For two
    /// well-formed extents the verdict is `Separated` exactly when a gap
    /// lies between them.
    pub fn against(self, other: Interval) -> (v: AxisView)
        ensures
            v == self.spec_against(other),
            self.wf() && other.wf() ==> ((v.overlap is Separated) <==> self.disjoint(other)),
    {
        let flipped: bool = self.min >= other.min;
        let a: Interval = if flipped { self.mirrored() } else { self };
        let b: Interval = if flipped { other.mirrored() } else { other };
        let overlap: Overlap = if b.max <= a.max {
            Overlap::Nested
        } else if b.min <= a.max {
            Overlap::Partial
        } else {
            Overlap::Separated
        };
        AxisView { a, b, flipped, overlap }
    }
}

/// An axis separates two shapes exactly when their extents on it do not
/// touch: the view of one well-formed extent against another is
/// `Separated` if and only if one of them ends strictly before the other
/// begins.
pub proof fn lemma_separated_iff_disjoint(a: Interval, b: Interval)
    requires
        a.wf(),
        b.wf(),
    ensures
        (a.spec_against(b).overlap is Separated) <==> a.disjoint(b),
{
}

/// An axis separates two shapes exactly when it parts their vertices. For
/// the projections of two shapes on one axis, all of them numbers and each
/// shape with a vertex, the extents are well-formed, and the view of one
/// against the other is `Separated` if and only if every projection of one
/// shape lies strictly below every projection of the other.
pub proof fn lemma_separated_iff_parted(pa: Seq<Scalar>, pb: Seq<Scalar>)
    requires
        pa.len() > 0,
        pb.len() > 0,
        forall|i: int| 0 <= i < pa.len() ==> !(#[trigger] pa[i]).nan(),
        forall|j: int| 0 <= j < pb.len() ==> !(#[trigger] pb[j]).nan(),
    ensures
        extent(pa).wf(),
        extent(pb).wf(),
        (extent(pa).spec_against(extent(pb)).overlap is Separated) <==> all_below(pa, pb)
            || all_below(pb, pa),
{
    lemma_extent_is_attained(pa);
    lemma_extent_is_attained(pb);
}

/// Both ends of the extent of a family that holds numbers only, and at
/// least one, are members of the family, and the extent is well-formed.
pub proof fn lemma_extent_is_attained(s: Seq<Scalar>)
    requires
        s.len() > 0,
        forall|i: int| 0 <= i < s.len() ==> !(#[trigger] s[i]).nan(),
    ensures
        extent(s).wf(),
        is_minimum(lowest(s), s),
        is_maximum(highest(s), s),
        exists|i: int| 0 <= i < s.len() && #[trigger] s[i] == lowest(s),
        exists|i: int| 0 <= i < s.len() && #[trigger] s[i] == highest(s),
{
    lemma_lowest_is_minimum(s);
    lemma_highest_is_maximum(s);
}

/// Exchanging the two extents turns the axis round. For two well-formed
/// extents that do not begin together, the view of `b` against `a` is
/// flipped exactly when that of `a` against `b` is not, both agree on
/// whether the axis separates, and where both find a partial overlap the
/// two ends between which it lies are the same ends, negated.
pub proof fn lemma_exchange(a: Interval, b: Interval)
    requires
        a.wf(),
        b.wf(),
        !a.min.spec_eq(b.min),
    ensures
        ({
            let v = a.spec_against(b);
            let w = b.spec_against(a);
            &&& w.flipped == !v.flipped
            &&& (w.overlap is Separated) == (v.overlap is Separated)
            &&& v.overlap is Partial && w.overlap is Partial ==> w.a.max == v.b.min.spec_neg()
                && w.b.min == v.a.max.spec_neg()
        }),
{
}

/// What the verdicts mean for two well-formed extents `a` and `b`, in
/// terms of their own ends.
///
/// Where `a` begins strictly below `b`, the axis is kept: `b` is nested if
/// it ends within `a`, partial if it begins within `a` and ends beyond it,
/// separated if it begins beyond `a`. Otherwise the axis is turned: `b` is
/// nested only if both begin together, partial if `a` begins within `b`
/// above its start, separated if `a` begins beyond `b`.
pub proof fn lemma_verdicts(a: Interval, b: Interval)
    requires
        a.wf(),
        b.wf(),
    ensures
        ({
            let v = a.spec_against(b);
            &&& v.a.wf()
            &&& v.b.wf()
            &&& !v.flipped ==> {
                &&& a.min.spec_lt(b.min)
                &&& v.overlap is Nested <==> b.max.spec_le(a.max)
                &&& v.overlap is Partial <==> b.min.spec_le(a.max) && a.max.spec_lt(b.max)
                &&& v.overlap is Separated <==> a.max.spec_lt(b.min)
            }
            &&& v.flipped ==> {
                &&& b.min.spec_le(a.min)
                &&& v.overlap is Nested <==> a.min.spec_eq(b.min)
                &&& v.overlap is Partial <==> b.min.spec_lt(a.min) && a.min.spec_le(b.max)
                &&& v.overlap is Separated <==> b.max.spec_lt(a.min)
            }
        }),
{
}

} // verus!
