//! When two moving shapes first touch, from what each axis says.
//!
//! On an axis along which two shapes close in or part, their extents touch
//! between two times. The shapes touch while every axis has them touching,
//! so they first touch at the latest entry, unless an axis has been left by
//! then or never has them touching at all.

use crate::scalar::Scalar;
use crate::scalar::INFINITY_BITS;
use crate::scalar::NEG_INFINITY_BITS;
use vstd::prelude::*;

verus! {

/// What one axis says of two shapes in motion.
#[derive(Clone, Copy, Debug)]
pub enum Sweep {
    /// The shapes do not move against each other along the axis: their
    /// extents stay as they are, apart or not.
    Still { apart: bool },
    /// The extents touch from the earlier of the two times to the later.
    Moving { t1: Scalar, t2: Scalar },
}

/// When two shapes first touch.
#[derive(Clone, Copy, Debug)]
pub enum Touch {
    /// Not at all from now on.
    Never,
    /// They touch now, and did before.
    Already,
    /// At the given time, not before now. The index names the axis that
    /// has them touching only from that time, the first such axis if there
    /// are several.
    At(Scalar, usize),
}

impl Sweep {
    /// The time from which the extents touch: the earlier of the two times.
    /// Where the two are not comparable it is the second.
    pub open spec fn entry(self) -> Option<Scalar> {
        match self {
            Sweep::Still { apart } => None,
            Sweep::Moving { t1, t2 } => Some(
                if t1.spec_le(t2) {
                    t1
                } else {
                    t2
                },
            ),
        }
    }

    /// The time up to which the extents touch: the later of the two times.
    /// Where the two are not comparable it is the first.
    pub open spec fn exit(self) -> Option<Scalar> {
        match self {
            Sweep::Still { apart } => None,
            Sweep::Moving { t1, t2 } => Some(
                if t1.spec_le(t2) {
                    t2
                } else {
                    t1
                },
            ),
        }
    }

    /// The axis has no entry after `t`.
    pub open spec fn enters_by(self, t: Scalar) -> bool {
        match self.entry() {
            Some(e) => !t.spec_lt(e),
            None => true,
        }
    }

    /// The axis has no entry at `t` or after it.
    pub open spec fn enters_before(self, t: Scalar) -> bool {
        match self.entry() {
            Some(e) => !t.spec_le(e),
            None => true,
        }
    }

    /// The extents touch at time `t`, as far as the axis can tell: an axis
    /// without motion has them touching always or never, and a time that is
    /// no number bounds nothing.
    pub open spec fn touching_at(self, t: Scalar) -> bool {
        match self {
            Sweep::Still { apart } => !apart,
            Sweep::Moving { t1, t2 } => !t.spec_lt(self.entry().unwrap()) && !self.exit().unwrap().spec_lt(
                t,
            ),
        }
    }
}

/// Some axis without motion keeps the shapes apart.
pub open spec fn blocked(s: Seq<Sweep>) -> bool {
    exists|k: int| 0 <= k < s.len() && #[trigger] s[k] == (Sweep::Still { apart: true })
}

/// The latest entry of the axes of `s`, times that are no numbers passed
/// over; negative infinity where no axis has one.
pub open spec fn latest_entry(s: Seq<Sweep>) -> Scalar
    decreases s.len(),
{
    if s.len() == 0 {
        Scalar { bits: NEG_INFINITY_BITS }
    } else {
        match s.last().entry() {
            Some(t) => latest_entry(s.drop_last()).spec_max(t),
            None => latest_entry(s.drop_last()),
        }
    }
}

/// The earliest exit of the axes of `s`, times that are no numbers passed
/// over; positive infinity where no axis has one.
pub open spec fn earliest_exit(s: Seq<Sweep>) -> Scalar
    decreases s.len(),
{
    if s.len() == 0 {
        Scalar { bits: INFINITY_BITS }
    } else {
        match s.last().exit() {
            Some(t) => earliest_exit(s.drop_last()).spec_min(t),
            None => earliest_exit(s.drop_last()),
        }
    }
}

/// Axis `k` has the entry `t`, and every axis before it enters strictly
/// before `t`, if it has an entry that is a number.
pub open spec fn enters_last(s: Seq<Sweep>, t: Scalar, k: int) -> bool {
    &&& 0 <= k < s.len()
    &&& s[k].entry() == Some(t)
    &&& forall|j: int| 0 <= j < k ==> (#[trigger] s[j]).enters_before(t)
}

/// What the axes say together: never, where an axis without motion keeps
/// the shapes apart, where the earliest exit comes before the latest entry,
/// or where it has passed already; else already, where the latest entry has
/// passed; else at the latest entry, with the first axis that has it.
pub open spec fn verdict(s: Seq<Sweep>, r: Touch) -> bool {
    let enter = latest_entry(s);
    let exit = earliest_exit(s);
    let zero = Scalar { bits: 0 };
    let never = blocked(s) || exit.spec_lt(enter) || exit.spec_lt(zero);
    match r {
        Touch::Never => never,
        Touch::Already => !never && enter.spec_lt(zero),
        Touch::At(t, k) => !never && !enter.spec_lt(zero) && t == enter && enters_last(s, t, k as int),
    }
}

/// When the shapes first touch, given what every axis says. The verdict is
/// the first time from now on at which every axis has the extents touching,
/// as `lemma_first_touch` states.
pub fn first_touch(sweeps: &Vec<Sweep>) -> (r: Touch)
    ensures
        verdict(sweeps@, r),
{
    let mut enter: Scalar = Scalar::from_bits(NEG_INFINITY_BITS);
    let mut exit: Scalar = Scalar::from_bits(INFINITY_BITS);
    let mut at: usize = 0;
    let mut apart: bool = false;
    let mut k: usize = 0;
    while k < sweeps.len()
        invariant
            k <= sweeps@.len(),
            enter == latest_entry(sweeps@.take(k as int)),
            exit == earliest_exit(sweeps@.take(k as int)),
            apart == blocked(sweeps@.take(k as int)),
            !enter.nan(),
            !exit.nan(),
            enter.bits != NEG_INFINITY_BITS ==> enters_last(sweeps@.take(k as int), enter, at as int),
            forall|j: int| 0 <= j < k ==> (#[trigger] sweeps@[j]).enters_by(enter),
        decreases sweeps@.len() - k,
    {
        proof {
            assert(sweeps@.take(k + 1).drop_last() == sweeps@.take(k as int));
        }
        match sweeps[k] {
            Sweep::Still { apart: a } => {
                if a {
                    apart = true;
                }
            },
            Sweep::Moving { t1, t2 } => {
                let ordered: bool = t1 <= t2;
                let t_in: Scalar = if ordered { t1 } else { t2 };
                let t_out: Scalar = if ordered { t2 } else { t1 };
                if t_in > enter {
                    enter = t_in;
                    at = k;
                }
                if t_out < exit {
                    exit = t_out;
                }
            },
        }
        k = k + 1;
    }
    proof {
        assert(sweeps@.take(k as int) == sweeps@);
    }
    let zero: Scalar = Scalar::from_bits(0);
    if apart || exit < enter || exit < zero {
        Touch::Never
    } else if enter < zero {
        Touch::Already
    } else {
        Touch::At(enter, at)
    }
}

/// The latest entry is a number, no axis enters after it, and it is the
/// entry of an axis unless it is negative infinity.
pub proof fn lemma_latest_entry(s: Seq<Sweep>)
    ensures
        !latest_entry(s).nan(),
        forall|j: int| 0 <= j < s.len() ==> (#[trigger] s[j]).enters_by(latest_entry(s)),
        latest_entry(s).bits == NEG_INFINITY_BITS || exists|k: int|
            0 <= k < s.len() && (#[trigger] s[k]).entry() == Some(latest_entry(s)),
    decreases s.len(),
{
    if s.len() > 0 {
        let front = s.drop_last();
        lemma_latest_entry(front);
        let m = latest_entry(s);
        assert forall|j: int| 0 <= j < s.len() implies (#[trigger] s[j]).enters_by(m) by {
            if j < front.len() {
                assert(front[j] == s[j]);
            }
        }
    }
}

/// The earliest exit is a number, no axis is left before it, and it is the
/// exit of an axis unless it is positive infinity.
pub proof fn lemma_earliest_exit(s: Seq<Sweep>)
    ensures
        !earliest_exit(s).nan(),
        forall|j: int|
            0 <= j < s.len() ==> match (#[trigger] s[j]).exit() {
                Some(e) => !e.spec_lt(earliest_exit(s)),
                None => true,
            },
        earliest_exit(s).bits == INFINITY_BITS || exists|k: int|
            0 <= k < s.len() && (#[trigger] s[k]).exit() == Some(earliest_exit(s)),
    decreases s.len(),
{
    if s.len() > 0 {
        let front = s.drop_last();
        lemma_earliest_exit(front);
        let m = earliest_exit(s);
        assert forall|j: int| 0 <= j < s.len() implies match (#[trigger] s[j]).exit() {
            Some(e) => !e.spec_lt(m),
            None => true,
        } by {
            if j < front.len() {
                assert(front[j] == s[j]);
            }
        }
    }
}

/// The verdict is the first touch. At the time of a verdict `At`, which is
/// not before now, every axis has the extents touching, and at every
/// earlier time the axis named has not; with `Already` every axis has them
/// touching now; with `Never` there is, for every time from now on, an axis
/// that does not have them touching then.
pub proof fn lemma_first_touch(s: Seq<Sweep>, r: Touch)
    requires
        verdict(s, r),
    ensures
        match r {
            Touch::At(t, k) => {
                &&& (Scalar { bits: 0 }).spec_le(t)
                &&& 0 <= k < s.len()
                &&& forall|j: int| 0 <= j < s.len() ==> (#[trigger] s[j]).touching_at(t)
                &&& forall|u: Scalar| u.spec_lt(t) ==> !s[k as int].touching_at(u)
            },
            Touch::Already => forall|j: int|
                0 <= j < s.len() ==> (#[trigger] s[j]).touching_at(Scalar { bits: 0 }),
            Touch::Never => forall|u: Scalar|
                (Scalar { bits: 0 }).spec_le(u) ==> exists|j: int|
                    0 <= j < s.len() && !(#[trigger] s[j]).touching_at(u),
        },
{
    lemma_latest_entry(s);
    lemma_earliest_exit(s);
    let enter = latest_entry(s);
    let exit = earliest_exit(s);
    if r is Never {
        assert forall|u: Scalar| (Scalar { bits: 0 }).spec_le(u) implies exists|j: int|
            0 <= j < s.len() && !(#[trigger] s[j]).touching_at(u) by {
            // The axis that rules the time out: one that keeps the shapes
            // apart, else one that has been left, else one not yet entered.
            let j = if blocked(s) {
                choose|j: int| 0 <= j < s.len() && #[trigger] s[j] == (Sweep::Still { apart: true })
            } else if exit.spec_lt(u) {
                choose|j: int| 0 <= j < s.len() && (#[trigger] s[j]).exit() == Some(exit)
            } else {
                choose|j: int| 0 <= j < s.len() && (#[trigger] s[j]).entry() == Some(enter)
            };
            assert(!s[j].touching_at(u));
        }
    }
}

} // verus!
