//! The choice of the least translation among those that the axes offer.

use crate::scalar::Scalar;
use crate::scalar::INFINITY_BITS;
use vstd::prelude::*;

verus! {

/// What an axis on which two shapes overlap offers: the overlap along it,
/// and the length of the translation along it that undoes the overlap.
#[derive(Clone, Copy, Debug)]
pub struct Candidate {
    pub overlap: Scalar,
    pub length: Scalar,
}

/// The candidate that is held after the candidates of `s` have been looked
/// at in order: each one replaces the one held if its overlap is strictly
/// below the length of that one, and the first replaces nothing of infinite
/// length.
pub open spec fn held(s: Seq<Candidate>) -> Option<int>
    decreases s.len(),
{
    if s.len() == 0 {
        None
    } else {
        let before = held(s.drop_last());
        if s.last().overlap.spec_lt(bar(s.drop_last(), before)) {
            Some(s.len() - 1)
        } else {
            before
        }
    }
}

/// The length that an overlap has to stay below to replace the candidate
/// held: the length of that candidate, or positive infinity where none is
/// held yet.
pub open spec fn bar(s: Seq<Candidate>, holding: Option<int>) -> Scalar {
    match holding {
        Some(i) => s[i].length,
        None => Scalar { bits: INFINITY_BITS },
    }
}

/// The index of the candidate that is held at the end, if any is.
pub fn least(candidates: &Vec<Candidate>) -> (r: Option<usize>)
    ensures
        match r {
            Some(i) => held(candidates@) == Some(i as int),
            None => held(candidates@) is None,
        },
{
    let mut best: Option<usize> = None;
    let mut limit: Scalar = Scalar::from_bits(INFINITY_BITS);
    let mut k: usize = 0;
    while k < candidates.len()
        invariant
            k <= candidates@.len(),
            match best {
                Some(i) => i < k && held(candidates@.take(k as int)) == Some(i as int),
                None => held(candidates@.take(k as int)) is None,
            },
            limit == bar(candidates@, held(candidates@.take(k as int))),
        decreases candidates@.len() - k,
    {
        proof {
            let seen = candidates@.take(k as int);
            assert(candidates@.take(k + 1).drop_last() == seen);
            lemma_held_is_listed(seen);
        }
        if candidates[k].overlap < limit {
            best = Some(k);
            limit = candidates[k].length;
        }
        k = k + 1;
    }
    proof {
        assert(candidates@.take(k as int) == candidates@);
    }
    best
}

/// The candidate held is one of those looked at.
pub proof fn lemma_held_is_listed(s: Seq<Candidate>)
    ensures
        match held(s) {
            Some(i) => 0 <= i < s.len(),
            None => true,
        },
    decreases s.len(),
{
    if s.len() > 0 {
        lemma_held_is_listed(s.drop_last());
    }
}

/// Every length is the overlap it undoes, and every overlap is a number.
pub open spec fn exact(s: Seq<Candidate>) -> bool {
    forall|k: int| 0 <= k < s.len() ==> (#[trigger] s[k]).length.spec_eq(s[k].overlap)
}

/// The translation chosen is the least. Where every length is the overlap
/// that it undoes, the candidate held at the end has an overlap below
/// infinity that no other overlap undercuts, and it is the first with that
/// overlap; and none is held only where no overlap is below infinity.
pub proof fn lemma_held_is_least(s: Seq<Candidate>)
    requires
        exact(s),
    ensures
        match held(s) {
            Some(i) => {
                &&& 0 <= i < s.len()
                &&& s[i].overlap.spec_lt(Scalar { bits: INFINITY_BITS })
                &&& forall|j: int| 0 <= j < s.len() ==> s[i].overlap.spec_le(#[trigger] s[j].overlap)
                &&& forall|j: int| 0 <= j < i ==> s[i].overlap.spec_lt(#[trigger] s[j].overlap)
            },
            None => forall|j: int|
                0 <= j < s.len() ==> !(#[trigger] s[j]).overlap.spec_lt(Scalar { bits: INFINITY_BITS }),
        },
    decreases s.len(),
{
    if s.len() > 0 {
        let front = s.drop_last();
        assert forall|k: int| 0 <= k < front.len() implies (#[trigger] front[k]).length.spec_eq(
            front[k].overlap,
        ) by {
            assert(front[k] == s[k]);
        }
        lemma_held_is_least(front);
        lemma_held_is_listed(front);
        assert forall|j: int| 0 <= j < front.len() implies front[j] == #[trigger] s[j] by {}
    }
}

} // verus!
