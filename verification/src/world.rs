//! The world: every body under its identifier.

use crate::body::Body;
use crate::polygon::Polygon;
use crate::scalar::Scalar;
use crate::scalar::INFINITY_BITS;
use std::collections::hash_map::Entry;
use std::collections::HashMap;
use vstd::prelude::*;

verus! {

broadcast use vstd::std_specs::hash::group_hash_axioms;

/// All bodies, each under the identifier it was given when it was added.
/// Identifiers are handed out in order from 1 and never used twice.
pub struct World {
    pub bodies: HashMap<u32, Body>,
    /// The identifier handed out last; 0 while the world is empty.
    pub current_id: u32,
}

impl View for World {
    type V = Map<u32, Body>;

    open spec fn view(&self) -> Map<u32, Body> {
        self.bodies@
    }
}

/// The order of pairs: by the first identifier, then by the second.
pub open spec fn pair_before(p: (u32, u32), q: (u32, u32)) -> bool {
    p.0 < q.0 || (p.0 == q.0 && p.1 < q.1)
}

impl World {
    /// The identifiers in use are exactly those handed out so far.
    pub open spec fn wf(&self) -> bool {
        forall|id: u32| self@.contains_key(id) <==> 1 <= id <= self.current_id
    }

    /// `id` has been handed out and a body is held under it. In a
    /// well-formed world this is the case of every identifier in the map.
    pub open spec fn holds(&self, id: u32) -> bool {
        self@.contains_key(id) && 1 <= id <= self.current_id
    }

    /// Gravity acts on the body under `id`: there is one, and it is not
    /// exempt.
    pub open spec fn feels_gravity(&self, id: u32) -> bool {
        self.holds(id) && !self@[id].gravityless
    }

    /// Two different identifiers, both handed out and in use.
    pub open spec fn is_pair(&self, p: (u32, u32)) -> bool {
        self.holds(p.0) && self.holds(p.1) && p.0 != p.1
    }

    /// `s` lists the identifiers in use among those handed out, each once,
    /// in increasing order.
    pub open spec fn lists_ids(&self, s: Seq<u32>) -> bool {
        &&& forall|k: int| 0 <= k < s.len() ==> self.holds(#[trigger] s[k])
        &&& forall|id: u32| self.holds(id) ==> s.contains(id)
        &&& forall|i: int, j: int| 0 <= i < j < s.len() ==> s[i] < s[j]
    }

    /// `s` lists the bodies on which gravity acts, each once, in increasing
    /// order of their identifiers.
    pub open spec fn lists_gravity_targets(&self, s: Seq<u32>) -> bool {
        &&& forall|k: int| 0 <= k < s.len() ==> self.feels_gravity(#[trigger] s[k])
        &&& forall|id: u32| self.feels_gravity(id) ==> s.contains(id)
        &&& forall|i: int, j: int| 0 <= i < j < s.len() ==> s[i] < s[j]
    }

    /// `s` lists every ordered pair of two different bodies, each once, in
    /// the order of pairs.
    pub open spec fn lists_pairs(&self, s: Seq<(u32, u32)>) -> bool {
        &&& forall|k: int| 0 <= k < s.len() ==> self.is_pair(#[trigger] s[k])
        &&& forall|p: (u32, u32)| self.is_pair(p) ==> s.contains(p)
        &&& forall|i: int, j: int| 0 <= i < j < s.len() ==> pair_before(s[i], s[j])
    }

    /// The empty world.
    pub fn new() -> (w: World)
        ensures
            w@ == Map::<u32, Body>::empty(),
            w.current_id == 0,
            w.wf(),
    {
        World { bodies: HashMap::new(), current_id: 0 }
    }

    /// Adds a body at rest and returns its identifier, the successor of the
    /// one handed out before.
    pub fn add_body(
        &mut self,
        shape: Polygon,
        mass: Scalar,
        friction: Scalar,
        frictionless: bool,
        gravityless: bool,
    ) -> (id: u32)
        requires
            old(self).current_id < u32::MAX,
        ensures
            id == old(self).current_id + 1,
            final(self).current_id == id,
            final(self)@ == old(self)@.insert(
                id,
                Body::at_rest(shape, mass, friction, frictionless, gravityless),
            ),
            old(self).wf() ==> final(self).wf() && !old(self)@.contains_key(id),
    {
        let id: u32 = self.current_id + 1;
        self.current_id = id;
        self.bodies.insert(id, Body::new(shape, mass, friction, frictionless, gravityless));
        id
    }

    /// Adds a body that nothing moves: its mass is positive infinity and
    /// gravity does not act on it.
    pub fn add_static_body(&mut self, shape: Polygon, friction: Scalar) -> (id: u32)
        requires
            old(self).current_id < u32::MAX,
        ensures
            id == old(self).current_id + 1,
            final(self).current_id == id,
            final(self)@ == old(self)@.insert(
                id,
                Body::at_rest(shape, Scalar { bits: INFINITY_BITS }, friction, false, true),
            ),
            old(self).wf() ==> final(self).wf() && !old(self)@.contains_key(id),
    {
        self.add_body(shape, Scalar::from_bits(INFINITY_BITS), friction, false, true)
    }

    /// The identifiers in use among those handed out, in increasing order.
    /// In a well-formed world these are all of them, from 1 to the one
    /// handed out last.
    pub fn ids(&self) -> (r: Vec<u32>)
        ensures
            self.lists_ids(r@),
            self.wf() ==> r@.len() == self.current_id && forall|k: int|
                0 <= k < r@.len() ==> r@[k] == k + 1,
    {
        let mut r: Vec<u32> = Vec::new();
        let mut id: u32 = 0;
        while id < self.current_id
            invariant
                id <= self.current_id,
                forall|k: int| 0 <= k < r@.len() ==> self.holds(#[trigger] r@[k]) && r@[k] <= id,
                forall|x: u32| x <= id && self.holds(x) ==> r@.contains(x),
                forall|i: int, j: int| 0 <= i < j < r@.len() ==> r@[i] < r@[j],
                self.wf() ==> r@.len() == id && forall|k: int| 0 <= k < r@.len() ==> r@[k] == k + 1,
            decreases self.current_id - id,
        {
            id = id + 1;
            let ghost before = r@;
            assert(self.wf() ==> self@.contains_key(id));
            if self.bodies.contains_key(&id) {
                r.push(id);
            }
            proof {
                assert forall|x: u32| x <= id && self.holds(x) implies r@.contains(x) by {
                    if x < id {
                        let k = choose|k: int| 0 <= k < before.len() && before[k] == x;
                        assert(r@[k] == x);
                    } else {
                        assert(r@[r@.len() - 1] == x);
                    }
                }
            }
        }
        r
    }

    /// The identifiers of the bodies on which gravity acts, in increasing
    /// order.
    pub fn gravity_targets(&self) -> (r: Vec<u32>)
        ensures
            self.lists_gravity_targets(r@),
    {
        let mut r: Vec<u32> = Vec::new();
        let mut id: u32 = 0;
        while id < self.current_id
            invariant
                id <= self.current_id,
                forall|k: int| 0 <= k < r@.len() ==> self.feels_gravity(#[trigger] r@[k]) && r@[k] <= id,
                forall|x: u32| x <= id && self.feels_gravity(x) ==> r@.contains(x),
                forall|i: int, j: int| 0 <= i < j < r@.len() ==> r@[i] < r@[j],
            decreases self.current_id - id,
        {
            id = id + 1;
            let ghost before = r@;
            match self.bodies.get(&id) {
                Some(body) => {
                    if !body.gravityless {
                        r.push(id);
                    }
                },
                None => {},
            }
            proof {
                assert forall|x: u32| x <= id && self.feels_gravity(x) implies r@.contains(x) by {
                    if x < id {
                        let k = choose|k: int| 0 <= k < before.len() && before[k] == x;
                        assert(r@[k] == x);
                    } else {
                        assert(r@[r@.len() - 1] == x);
                    }
                }
            }
        }
        r
    }

    /// Every ordered pair of two different bodies, in the order of the first
    /// and then of the second identifier. No body is paired with itself.
    pub fn pairs(&self) -> (r: Vec<(u32, u32)>)
        ensures
            self.lists_pairs(r@),
    {
        let ids: Vec<u32> = self.ids();
        let n: usize = ids.len();
        let mut r: Vec<(u32, u32)> = Vec::new();
        let mut i: usize = 0;
        while i < n
            invariant
                n == ids@.len(),
                i <= n,
                forall|k: int| 0 <= k < ids@.len() ==> self.holds(#[trigger] ids@[k]),
                forall|id: u32| self.holds(id) ==> ids@.contains(id),
                forall|x: int, y: int| 0 <= x < y < ids@.len() ==> ids@[x] < ids@[y],
                forall|k: int| 0 <= k < r@.len() ==> self.is_pair(#[trigger] r@[k]) && i > 0
                    && r@[k].0 <= ids@[i - 1],
                forall|x: int, y: int| 0 <= x < i && 0 <= y < n && x != y ==> r@.contains(
                    (#[trigger] ids@[x], #[trigger] ids@[y]),
                ),
                forall|x: int, y: int| 0 <= x < y < r@.len() ==> pair_before(r@[x], r@[y]),
            decreases n - i,
        {
            let a: u32 = ids[i];
            let mut j: usize = 0;
            while j < n
                invariant
                    n == ids@.len(),
                    i < n,
                    j <= n,
                    a == ids@[i as int],
                    forall|k: int| 0 <= k < ids@.len() ==> self.holds(#[trigger] ids@[k]),
                    forall|x: int, y: int| 0 <= x < y < ids@.len() ==> ids@[x] < ids@[y],
                    forall|k: int| 0 <= k < r@.len() ==> self.is_pair(#[trigger] r@[k]) && (r@[k].0 < a
                        || (r@[k].0 == a && j > 0 && r@[k].1 <= ids@[j - 1])),
                    forall|x: int, y: int| 0 <= x < i && 0 <= y < n && x != y ==> r@.contains(
                        (#[trigger] ids@[x], #[trigger] ids@[y]),
                    ),
                    forall|y: int| 0 <= y < j && y != i ==> r@.contains((a, #[trigger] ids@[y])),
                    forall|x: int, y: int| 0 <= x < y < r@.len() ==> pair_before(r@[x], r@[y]),
                decreases n - j,
            {
                let b: u32 = ids[j];
                let ghost before = r@;
                if i != j {
                    r.push((a, b));
                }
                proof {
                    assert forall|x: int, y: int| 0 <= x < i && 0 <= y < n && x != y implies r@.contains(
                        (#[trigger] ids@[x], #[trigger] ids@[y]),
                    ) by {
                        let p = (ids@[x], ids@[y]);
                        let k = choose|k: int| 0 <= k < before.len() && before[k] == p;
                        assert(r@[k] == p);
                    }
                    assert forall|y: int| 0 <= y < j + 1 && y != i implies r@.contains(
                        (a, #[trigger] ids@[y]),
                    ) by {
                        let p = (a, ids@[y]);
                        if y < j {
                            let k = choose|k: int| 0 <= k < before.len() && before[k] == p;
                            assert(r@[k] == p);
                        } else {
                            assert(r@[r@.len() - 1] == p);
                        }
                    }
                }
                j = j + 1;
            }
            i = i + 1;
        }
        proof {
            assert forall|p: (u32, u32)| self.is_pair(p) implies r@.contains(p) by {
                let x = choose|x: int| 0 <= x < ids@.len() && ids@[x] == p.0;
                let y = choose|y: int| 0 <= y < ids@.len() && ids@[y] == p.1;
                assert(r@.contains((ids@[x], ids@[y])));
            }
        }
        r
    }

    /// The body under `id`, for the caller to change; `None` where the
    /// identifier is not in use. Whatever the caller does to the body, every
    /// other body and the identifiers stay as they are.
    pub fn body(&mut self, id: u32) -> (r: Option<&mut Body>)
        ensures
            r is Some <==> old(self)@.contains_key(id),
            final(self).current_id == old(self).current_id,
            match r {
                Some(b) => *b == old(self)@[id] && final(self)@ == old(self)@.insert(id, *final(b)),
                None => final(self)@ == old(self)@,
            },
            old(self).wf() ==> final(self).wf(),
    {
        match self.bodies.entry(id) {
            Entry::Occupied(e) => Some(e.into_mut()),
            Entry::Vacant(_) => None,
        }
    }
}

} // verus!
