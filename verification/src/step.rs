//! Planning of a simulation step: which predicted contact comes first, how
//! far to advance, and when to stop trying.

use crate::point::Vector;
use crate::scalar::Scalar;
use vstd::prelude::*;

verus! {

/// How many advances one update may make.
pub const COLLISION_LOOP_TRIES: u32 = 100;

/// The bit pattern of 1e-3: with less time than this left, an update ends.
pub const MIN_TIME_LEFT_BITS: u64 = 0x3F50_624D_D2F1_A9FC;

/// The bit pattern of 1e-10: an advance stops this long before a contact.
pub const CONTACT_MARGIN_BITS: u64 = 0x3DDB_7CDF_D9D7_BDBB;

/// The bit pattern of 4.0: what gravity takes from the vertical velocity of
/// a body in each update.
pub const GRAVITY_BITS: u64 = 0x4010_0000_0000_0000;

/// A predicted contact of two bodies: when, counted from now, and along
/// which normal.
#[derive(Clone, Copy, Debug)]
pub struct Contact {
    pub a: u32,
    pub b: u32,
    pub time: Scalar,
    pub normal: Vector,
}

/// The contact happens within the time that is left. A NaN on either side
/// rules it out.
pub open spec fn in_time(c: Contact, time_left: Scalar) -> bool {
    c.time.spec_le(time_left)
}

/// Contact `i` is the one to resolve first: it happens in time, no contact
/// in time happens sooner, and those listed before it happen strictly later.
pub open spec fn is_earliest(s: Seq<Contact>, time_left: Scalar, i: int) -> bool {
    &&& 0 <= i < s.len()
    &&& in_time(s[i], time_left)
    &&& forall|j: int|
        0 <= j < s.len() && in_time(#[trigger] s[j], time_left) ==> s[i].time.spec_le(s[j].time) && (j
            < i ==> s[i].time.spec_lt(s[j].time))
}

/// The index of the contact to resolve first among those that happen within
/// `time_left`; `None` exactly when none does. Of several contacts at the
/// same earliest time the one listed first is taken.
pub fn earliest(contacts: &Vec<Contact>, time_left: Scalar) -> (r: Option<usize>)
    ensures
        match r {
            Some(i) => is_earliest(contacts@, time_left, i as int),
            None => forall|j: int| 0 <= j < contacts@.len() ==> !in_time(contacts@[j], time_left),
        },
{
    let mut best: Option<usize> = None;
    let mut j: usize = 0;
    while j < contacts.len()
        invariant
            j <= contacts@.len(),
            match best {
                Some(i) => i < j && is_earliest(contacts@.take(j as int), time_left, i as int),
                None => forall|k: int| 0 <= k < j ==> !in_time(contacts@[k], time_left),
            },
        decreases contacts@.len() - j,
    {
        let c: Contact = contacts[j];
        if c.time <= time_left {
            let sooner: bool = match best {
                Some(i) => c.time < contacts[i].time,
                None => true,
            };
            if sooner {
                best = Some(j);
            }
        }
        j = j + 1;
    }
    proof {
        assert(contacts@.take(j as int) == contacts@);
    }
    best
}

/// How far the bodies move in one advance.
#[derive(Clone, Copy, Debug)]
pub enum Advance {
    /// A contact is due within the margin: nothing moves.
    Stay,
    /// Up to the margin before the contact at the given time.
    JustBefore(Scalar),
    /// No contact is due: through all the time that is left, which is given.
    Rest(Scalar),
}

/// What is left of an update: time, and advances.
#[derive(Clone, Copy, Debug)]
pub struct StepBudget {
    pub time_left: Scalar,
    pub tries: u32,
}

impl StepBudget {
    /// There is time worth simulating and an advance to spend on it.
    pub open spec fn live(&self) -> bool {
        (Scalar { bits: MIN_TIME_LEFT_BITS }).spec_le(self.time_left) && self.tries > 0
    }

    /// How far to advance: not at all where a contact is due within the
    /// margin, else up to the margin before the contact, else, with no
    /// contact in time, through all the time that is left.
    pub open spec fn spec_plan(self, contact_time: Option<Scalar>) -> Advance {
        match contact_time {
            Some(t) => if t.spec_le(Scalar { bits: CONTACT_MARGIN_BITS }) {
                Advance::Stay
            } else {
                Advance::JustBefore(t)
            },
            None => Advance::Rest(self.time_left),
        }
    }

    /// Time worth simulating is left, but no advance to spend on it.
    pub open spec fn spec_gave_up(self) -> bool {
        (Scalar { bits: MIN_TIME_LEFT_BITS }).spec_le(self.time_left) && self.tries == 0
    }

    /// The budget after one advance that leaves `time_left`.
    pub open spec fn after(self, time_left: Scalar) -> StepBudget {
        StepBudget {
            time_left,
            tries: if self.tries > 0 {
                (self.tries - 1) as u32
            } else {
                0
            },
        }
    }

    /// The budget after one advance for each entry of `times`, in order.
    pub open spec fn after_all(self, times: Seq<Scalar>) -> StepBudget
        decreases times.len(),
    {
        if times.len() == 0 {
            self
        } else {
            self.after_all(times.drop_last()).after(times.last())
        }
    }

    /// The budget of an update over `delta`: all of the time, and the full
    /// number of advances.
    pub fn new(delta: Scalar) -> (r: StepBudget)
        ensures
            r.time_left == delta,
            r.tries == COLLISION_LOOP_TRIES,
    {
        StepBudget { time_left: delta, tries: COLLISION_LOOP_TRIES }
    }

    /// Whether the update goes on.
    pub fn is_live(&self) -> (r: bool)
        ensures
            r == self.live(),
    {
        self.time_left >= Scalar::from_bits(MIN_TIME_LEFT_BITS) && self.tries > 0
    }

    /// How far to advance, given the time of the earliest contact in time if
    /// there is one.
    pub fn plan(&self, contact_time: Option<Scalar>) -> (r: Advance)
        ensures
            r == self.spec_plan(contact_time),
    {
        match contact_time {
            Some(t) => {
                if t <= Scalar::from_bits(CONTACT_MARGIN_BITS) {
                    Advance::Stay
                } else {
                    Advance::JustBefore(t)
                }
            },
            None => Advance::Rest(self.time_left),
        }
    }

    /// Books one advance: `time_left` is what the caller has left after it.
    /// Each call takes one from `tries` until none is left, so an update
    /// that spends once per round ends after `COLLISION_LOOP_TRIES` rounds
    /// at the latest.
    pub fn spend(&mut self, time_left: Scalar)
        ensures
            *final(self) == old(self).after(time_left),
            old(self).live() ==> final(self).tries < old(self).tries,
    {
        self.time_left = time_left;
        if self.tries > 0 {
            self.tries = self.tries - 1;
        }
    }

    /// Whether the update gave up: time worth simulating is left, but no
    /// advance to spend on it.
    pub fn gave_up(&self) -> (r: bool)
        ensures
            r == self.spec_gave_up(),
    {
        self.time_left >= Scalar::from_bits(MIN_TIME_LEFT_BITS) && self.tries == 0
    }
}

/// The choice is forced: of the contacts of one list, and for one time
/// left, at most one is the earliest.
pub proof fn lemma_earliest_is_unique(s: Seq<Contact>, time_left: Scalar, i: int, j: int)
    requires
        is_earliest(s, time_left, i),
        is_earliest(s, time_left, j),
    ensures
        i == j,
{
}

/// Advances use the budget up. After `k` advances a budget has `k` tries
/// fewer, or none; so an update, whatever time each advance leaves, is over
/// after `COLLISION_LOOP_TRIES` advances.
pub proof fn lemma_budget_runs_out(budget: StepBudget, times: Seq<Scalar>)
    ensures
        budget.after_all(times).tries == if budget.tries >= times.len() {
            budget.tries - times.len()
        } else {
            0
        },
        budget.tries <= times.len() ==> !budget.after_all(times).live(),
    decreases times.len(),
{
    if times.len() > 0 {
        lemma_budget_runs_out(budget, times.drop_last());
    }
}

} // verus!
