//! A table that gives out its own keys.

use vstd::prelude::*;

verus! {

/// Values of type `V`, each under a key that the table chose. Keys of removed values are given
/// out again.
#[derive(Debug)]
pub struct Slab<V> {
    entries: Vec<Option<V>>,
    free: Vec<usize>,
}

impl<V> View for Slab<V> {
    type V = Map<usize, V>;

    closed spec fn view(&self) -> Map<usize, V> {
        Map::new(
            |key: usize| key < self.entries@.len() && self.entries@[key as int] is Some,
            |key: usize| self.entries@[key as int]->0,
        )
    }
}

impl<V> Slab<V> {
    /// The keys on the list of free ones are free, and each is listed once.
    pub closed spec fn wf(&self) -> bool {
        &&& self.free@.no_duplicates()
        &&& forall|i: int|
            0 <= i < self.free@.len() ==> #[trigger] self.free@[i] < self.entries@.len()
                && self.entries@[self.free@[i] as int] is None
    }

    /// A table without values.
    pub fn new() -> (slab: Self)
        ensures
            slab.wf(),
            slab@ == Map::<usize, V>::empty(),
    {
        let slab = Slab { entries: Vec::new(), free: Vec::new() };
        assert(slab@ =~= Map::<usize, V>::empty());
        slab
    }

    /// Adds `value` under a key that no other value has.
    pub fn insert(&mut self, value: V) -> (key: usize)
        requires
            old(self).wf(),
        ensures
            final(self).wf(),
            !old(self)@.contains_key(key),
            final(self)@ == old(self)@.insert(key, value),
    {
        match self.free.pop() {
            Some(key) => {
                self.entries.set(key, Some(value));
                assert(self@ =~= old(self)@.insert(key, value));
                key
            },
            None => {
                let key: usize = self.entries.len();
                self.entries.push(Some(value));
                assert(self@ =~= old(self)@.insert(key, value));
                key
            },
        }
    }

    /// Takes the value under `key` out of the table, if there is one.
    pub fn remove(&mut self, key: usize) -> (removed: Option<V>)
        requires
            old(self).wf(),
        ensures
            final(self).wf(),
            final(self)@ == old(self)@.remove(key),
            match removed {
                Some(value) => old(self)@.contains_key(key) && value == old(self)@[key],
                None => !old(self)@.contains_key(key),
            },
    {
        if key >= self.entries.len() {
            assert(self@ =~= old(self)@.remove(key));
            return None;
        }
        let removed = self.entries[key].take();
        if removed.is_some() {
            self.free.push(key);
        }
        assert(self@ =~= old(self)@.remove(key));
        removed
    }

    /// Whether there is a value under `key`.
    pub fn contains(&self, key: usize) -> (contains: bool)
        ensures
            contains == self@.contains_key(key),
    {
        key < self.entries.len() && self.entries[key].is_some()
    }

    /// Access to the value under `key`.
    pub fn get(&self, key: usize) -> (value: &V)
        requires
            self@.contains_key(key),
        ensures
            *value == self@[key],
    {
        self.entries[key].as_ref().unwrap()
    }

    /// Access to the value under `key`, to change it in place.
    pub fn get_mut(&mut self, key: usize) -> (value: &mut V)
        requires
            old(self).wf(),
            old(self)@.contains_key(key),
        ensures
            *value == old(self)@[key],
            final(self).wf(),
            final(self)@ == old(self)@.insert(key, *final(value)),
    {
        let entry = &mut self.entries[key];
        entry.as_mut().unwrap()
    }
}

} // verus!
