//! An update of the world, task by task.
//!
//! An update alternates decisions with arithmetic: gravity is taken from
//! the velocities, and then, round after round, the contacts of all pairs
//! are predicted, the bodies are moved up to the earliest of them, and the
//! two bodies concerned exchange velocities. The decisions are made here.
//! The caller is handed one task at a time, carries it out on the bodies,
//! and reports back; the report gets it the next task, until the task is to
//! stop.

use crate::response::share_of;
use crate::response::mass_share;
use crate::response::slides;
use crate::response::MassShare;
use crate::scalar::Scalar;
use crate::step::earliest;
use crate::step::in_time;
use crate::step::is_earliest;
use crate::step::Advance;
use crate::step::Contact;
use crate::step::StepBudget;
use crate::step::COLLISION_LOOP_TRIES;
use crate::world::World;
use vstd::prelude::*;

verus! {

broadcast use vstd::std_specs::hash::group_hash_axioms;

/// Which report an update waits for.
#[derive(Clone, Copy, Debug, PartialEq, Eq, Structural)]
pub enum Phase {
    /// That gravity has been applied.
    Gravity,
    /// The predicted contacts of all pairs.
    Seek,
    /// That the bodies have been moved.
    Advance,
    /// That the two bodies of a contact have exchanged velocities.
    Respond,
    /// None: the update is over.
    Done,
}

/// The state of an update between two tasks.
#[derive(Clone, Copy, Debug)]
pub struct Update {
    pub phase: Phase,
    pub budget: StepBudget,
    /// The contact that the round is about, from the moment it is chosen
    /// until the two bodies have responded.
    pub first: Option<Contact>,
}

/// What the caller is to do next.
#[derive(Debug)]
pub enum Task {
    /// Take gravity from the vertical velocity of each of these bodies.
    Pull(Vec<u32>),
    /// Predict the contact of each of these pairs of bodies, in this order.
    Predict(Vec<(u32, u32)>),
    /// Move every body along its velocity, this far.
    Move(Advance),
    /// Let the two bodies of this contact exchange velocities: along the
    /// normal by the given share of the first, across it in full where the
    /// flag says that they slide.
    Respond(Contact, MassShare, bool),
    /// Nothing: the update is over. The flag says whether it gave up with
    /// time left.
    Stop(bool),
}

/// What the caller reports of a task.
#[derive(Debug)]
pub enum Report {
    /// Gravity has been applied.
    Pulled,
    /// The contacts that were predicted, in the order of the pairs.
    Predicted(Vec<Contact>),
    /// The bodies have been moved; this much time is left after the move.
    Moved(Scalar),
    /// The two bodies have exchanged velocities.
    Responded,
}

/// `first` is the contact to resolve first among `s`, or `None` where none
/// of them happens in time.
pub open spec fn chosen(s: Seq<Contact>, time_left: Scalar, first: Option<Contact>) -> bool {
    match first {
        Some(c) => exists|i: int| is_earliest(s, time_left, i) && s[i] == c,
        None => forall|j: int| 0 <= j < s.len() ==> !in_time(s[j], time_left),
    }
}

impl Update {
    /// A bound on the tasks that are still to come: every report but one to
    /// a finished update makes it smaller.
    pub open spec fn fuel(self) -> nat {
        match self.phase {
            Phase::Gravity => (3 * self.budget.tries + 5) as nat,
            Phase::Respond => (3 * self.budget.tries + 4) as nat,
            Phase::Seek => (3 * self.budget.tries + 3) as nat,
            Phase::Advance => (3 * self.budget.tries + 2) as nat,
            Phase::Done => 0,
        }
    }

    /// The update is over with this budget.
    pub open spec fn stops(budget: StepBudget, r: (Update, Task)) -> bool {
        &&& r.0 == Update { phase: Phase::Done, budget, first: None }
        &&& r.1 == Task::Stop(budget.spec_gave_up())
    }
}

impl World {
    /// A round opens with this budget: the contacts of all pairs are to be
    /// predicted; or, where the budget is not live, the update is over.
    pub open spec fn opens_round(&self, budget: StepBudget, r: (Update, Task)) -> bool {
        if budget.live() {
            &&& r.0 == Update { phase: Phase::Seek, budget, first: None }
            &&& r.1 matches Task::Predict(pairs) && self.lists_pairs(pairs@)
        } else {
            Update::stops(budget, r)
        }
    }

    /// `r` is what follows when `report` reaches an update in `state`.
    ///
    /// After gravity, and after a response, a round opens. The contacts
    /// that were sought decide the move: up to the earliest of them in
    /// time. The move is booked on the budget; then the two bodies of that
    /// contact respond, if there is one and both are in the world, or else
    /// the next round opens. A report that the state does not wait for, or
    /// one that finds no advance left to book, ends the update.
    pub open spec fn follows(&self, state: Update, report: Report, r: (Update, Task)) -> bool {
        match (state.phase, report) {
            (Phase::Gravity, Report::Pulled) => self.opens_round(state.budget, r),
            (Phase::Respond, Report::Responded) => self.opens_round(state.budget, r),
            (Phase::Seek, Report::Predicted(contacts)) => if state.budget.tries > 0 {
                &&& r.0.phase is Advance
                &&& r.0.budget == state.budget
                &&& chosen(contacts@, state.budget.time_left, r.0.first)
                &&& r.1 == Task::Move(
                    state.budget.spec_plan(
                        match r.0.first {
                            Some(c) => Some(c.time),
                            None => None,
                        },
                    ),
                )
            } else {
                Update::stops(state.budget, r)
            },
            (Phase::Advance, Report::Moved(time_left)) => if state.budget.tries > 0 {
                let budget = state.budget.after(time_left);
                match state.first {
                    Some(c) => if self@.contains_key(c.a) && self@.contains_key(c.b) {
                        &&& r.0 == Update { phase: Phase::Respond, budget, first: Some(c) }
                        &&& r.1 == Task::Respond(
                            c,
                            share_of(self@[c.a].mass, self@[c.b].mass),
                            self@[c.a].frictionless || self@[c.b].frictionless,
                        )
                    } else {
                        self.opens_round(budget, r)
                    },
                    None => self.opens_round(budget, r),
                }
            } else {
                Update::stops(state.budget, r)
            },
            _ => Update::stops(state.budget, r),
        }
    }

    /// Opens a round, or ends the update where the budget is not live.
    fn open_round(&self, budget: StepBudget) -> (r: (Update, Task))
        ensures
            self.opens_round(budget, r),
    {
        if budget.is_live() {
            (Update { phase: Phase::Seek, budget, first: None }, Task::Predict(self.pairs()))
        } else {
            World::stop(budget)
        }
    }

    /// Ends the update.
    fn stop(budget: StepBudget) -> (r: (Update, Task))
        ensures
            Update::stops(budget, r),
    {
        (Update { phase: Phase::Done, budget, first: None }, Task::Stop(budget.gave_up()))
    }

    /// Begins an update over `delta`: the budget is full, and the first
    /// task is to apply gravity to the bodies that are not exempt from it.
    pub fn begin_update(&self, delta: Scalar) -> (r: (Update, Task))
        ensures
            r.0 == (Update {
                phase: Phase::Gravity,
                budget: StepBudget { time_left: delta, tries: COLLISION_LOOP_TRIES },
                first: None,
            }),
            r.1 matches Task::Pull(ids) && self.lists_gravity_targets(ids@),
            r.0.fuel() == 3 * COLLISION_LOOP_TRIES + 5,
    {
        (
            Update { phase: Phase::Gravity, budget: StepBudget::new(delta), first: None },
            Task::Pull(self.gravity_targets()),
        )
    }

    /// Takes the report of the task that was handed out last and hands out
    /// the next one. Every report brings the update nearer to its end: it
    /// lowers the bound on the tasks to come, so that no update hands out
    /// more than `3 * COLLISION_LOOP_TRIES + 5` tasks after the first.
    pub fn update(&self, state: Update, report: Report) -> (r: (Update, Task))
        ensures
            self.follows(state, report, r),
            state.phase is Done ==> r.0.phase is Done,
            !(state.phase is Done) ==> r.0.fuel() < state.fuel(),
    {
        match (state.phase, report) {
            (Phase::Gravity, Report::Pulled) => self.open_round(state.budget),
            (Phase::Respond, Report::Responded) => self.open_round(state.budget),
            (Phase::Seek, Report::Predicted(contacts)) => {
                if state.budget.tries > 0 {
                    let first: Option<Contact> = match earliest(&contacts, state.budget.time_left) {
                        Some(i) => Some(contacts[i]),
                        None => None,
                    };
                    let time: Option<Scalar> = match first {
                        Some(c) => Some(c.time),
                        None => None,
                    };
                    (
                        Update { phase: Phase::Advance, budget: state.budget, first },
                        Task::Move(state.budget.plan(time)),
                    )
                } else {
                    World::stop(state.budget)
                }
            },
            (Phase::Advance, Report::Moved(time_left)) => {
                if state.budget.tries > 0 {
                    let mut budget: StepBudget = state.budget;
                    budget.spend(time_left);
                    match state.first {
                        Some(c) => match (self.bodies.get(&c.a), self.bodies.get(&c.b)) {
                            (Some(a), Some(b)) => (
                                Update { phase: Phase::Respond, budget, first: Some(c) },
                                Task::Respond(c, mass_share(a.mass, b.mass), slides(a, b)),
                            ),
                            _ => self.open_round(budget),
                        },
                        None => self.open_round(budget),
                    }
                } else {
                    World::stop(state.budget)
                }
            },
            _ => World::stop(state.budget),
        }
    }
}

} // verus!
