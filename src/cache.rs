//! A small map keyed by object hash, used for the engine's caches.
use vstd::prelude::*;

use crate::object::ObjectHash;

verus! {

/// Entries are kept in insertion order; each hash occurs at most once.
pub struct ObjectMap<V> {
    entries: Vec<(ObjectHash, V)>,
    contents: Ghost<Map<ObjectHash, V>>,
}

impl<V> View for ObjectMap<V> {
    type V = Map<ObjectHash, V>;

    closed spec fn view(&self) -> Map<ObjectHash, V> {
        self.contents@
    }
}

impl<V> ObjectMap<V> {
    pub closed spec fn wf(&self) -> bool {
        &&& forall|i: int, j: int|
            0 <= i < j < self.entries@.len() ==> self.entries@[i].0 != self.entries@[j].0
        &&& forall|i: int|
            0 <= i < self.entries@.len() ==> #[trigger] self.contents@.contains_key(
                self.entries@[i].0,
            ) && self.contents@[self.entries@[i].0] == self.entries@[i].1
        &&& forall|k: ObjectHash|
            #[trigger] self.contents@.contains_key(k) ==> exists|i: int|
                0 <= i < self.entries@.len() && self.entries@[i].0 == k
    }

    pub fn new() -> (r: ObjectMap<V>)
        ensures
            r.wf(),
            r@ == Map::<ObjectHash, V>::empty(),
    {
        ObjectMap { entries: Vec::new(), contents: Ghost(Map::empty()) }
    }

    fn index_of(&self, key: &ObjectHash) -> (r: Option<usize>)
        requires
            self.wf(),
        ensures
            r is None ==> !self@.contains_key(*key),
            r matches Some(i) ==> {
                &&& i < self.entries@.len()
                &&& self.entries@[i as int].0 == *key
                &&& self@.contains_key(*key)
                &&& self@[*key] == self.entries@[i as int].1
            },
    {
        let mut i: usize = 0;
        while i < self.entries.len()
            invariant
                self.wf(),
                i <= self.entries@.len(),
                forall|j: int| 0 <= j < i ==> self.entries@[j].0 != *key,
            decreases self.entries@.len() - i,
        {
            if self.entries[i].0.same_as(key) {
                assert(self.contents@.contains_key(self.entries@[i as int].0));
                return Some(i);
            }
            i += 1;
        }
        None
    }

    pub fn get(&self, key: &ObjectHash) -> (r: Option<&V>)
        requires
            self.wf(),
        ensures
            r is None <==> !self@.contains_key(*key),
            r matches Some(v) ==> *v == self@[*key],
    {
        match self.index_of(key) {
            Some(i) => Some(&self.entries[i].1),
            None => None,
        }
    }

    /// Adds `key`, or replaces what it held.
    pub fn insert(&mut self, key: ObjectHash, value: V)
        requires
            old(self).wf(),
        ensures
            final(self).wf(),
            final(self)@ == old(self)@.insert(key, value),
    {
        let ghost old_contents = self.contents@;
        let ghost new_contents = old_contents.insert(key, value);
        match self.index_of(&key) {
            Some(i) => {
                self.entries.set(i, (key, value));
                self.contents = Ghost(new_contents);
                assert forall|k: ObjectHash| #[trigger] new_contents.contains_key(k) implies exists|
                    j: int,
                | 0 <= j < self.entries@.len() && self.entries@[j].0 == k by {
                    if k != key {
                        let j = choose|j: int|
                            0 <= j < old(self).entries@.len() && old(self).entries@[j].0 == k;
                        assert(self.entries@[j].0 == k);
                    } else {
                        assert(self.entries@[i as int].0 == k);
                    }
                }
            },
            None => {
                self.entries.push((key, value));
                self.contents = Ghost(new_contents);
                assert forall|k: ObjectHash| #[trigger] new_contents.contains_key(k) implies exists|
                    j: int,
                | 0 <= j < self.entries@.len() && self.entries@[j].0 == k by {
                    if k != key {
                        let j = choose|j: int|
                            0 <= j < old(self).entries@.len() && old(self).entries@[j].0 == k;
                        assert(self.entries@[j].0 == k);
                    } else {
                        assert(self.entries@[self.entries@.len() - 1].0 == k);
                    }
                }
            },
        }
    }
}

} // verus!
