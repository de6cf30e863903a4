//! An index of identifiers: which ones were seen, in what order, and where
//! each stands.

use std::collections::HashMap;
use vstd::prelude::*;

verus! {

broadcast use vstd::std_specs::hash::group_hash_axioms;

/// Identifiers in order of first occurrence, with the place of each.
pub struct IdIndex {
    /// The identifiers, each once, in order of first occurrence.
    pub ids: Vec<i32>,
    /// For each identifier, its place in `ids`.
    pub position: HashMap<i32, usize>,
}

impl IdIndex {
    /// The two fields agree.
    pub open spec fn wf(&self) -> bool {
        &&& self.ids@.no_duplicates()
        &&& forall|id: i32| self.position@.contains_key(id) <==> self.ids@.contains(id)
        &&& forall|id: i32| #[trigger]
            self.position@.contains_key(id) ==> {
                &&& self.position@[id] < self.ids.len()
                &&& self.ids@[self.position@[id] as int] == id
            }
    }

    /// An index that holds nothing.
    pub fn new() -> (r: Self)
        ensures
            r.wf(),
            r.ids@ == Seq::<i32>::empty(),
    {
        IdIndex { ids: Vec::new(), position: HashMap::new() }
    }

    /// Where `id` stands, if it was recorded.
    pub fn find(&self, id: i32) -> (r: Option<usize>)
        requires
            self.wf(),
        ensures
            match r {
                Some(k) => k < self.ids.len() && self.ids@[k as int] == id,
                None => !self.ids@.contains(id),
            },
    {
        match self.position.get(&id) {
            Some(k) => Some(*k),
            None => None,
        }
    }

    /// Records `id` unless it is there already.
    pub fn record(&mut self, id: i32)
        requires
            old(self).wf(),
        ensures
            final(self).wf(),
            final(self).ids@ == if old(self).ids@.contains(id) {
                old(self).ids@
            } else {
                old(self).ids@.push(id)
            },
    {
        if !self.position.contains_key(&id) {
            let k = self.ids.len();
            self.position.insert(id, k);
            self.ids.push(id);
            proof {
                let before = old(self).ids@;
                assert(!before.contains(id));
                assert forall|i: int, j: int|
                    0 <= i < self.ids@.len() && 0 <= j < self.ids@.len() && i != j implies self.ids@[i]
                    != self.ids@[j] by {
                    if i < before.len() {
                        assert(before.contains(before[i]));
                    }
                    if j < before.len() {
                        assert(before.contains(before[j]));
                    }
                }
                assert forall|other: i32| self.position@.contains_key(other) implies {
                    &&& self.position@[other] < self.ids.len()
                    &&& self.ids@[self.position@[other] as int] == other
                } by {
                    if other != id {
                        assert(old(self).position@.contains_key(other));
                    }
                }
                assert forall|other: i32|
                    self.position@.contains_key(other) <==> self.ids@.contains(other) by {
                    if other == id {
                        assert(self.ids@[k as int] == id);
                    } else if before.contains(other) {
                        let j = choose|j: int| 0 <= j < before.len() && before[j] == other;
                        assert(self.ids@[j] == other);
                    } else if self.ids@.contains(other) {
                        let j = choose|j: int| 0 <= j < self.ids@.len() && self.ids@[j] == other;
                        assert(before[j] == other);
                    }
                }
            }
        }
    }
}

} // verus!
