//! The relay tasks that a scope knows of.

use dashmap::DashMap;
use vstd::prelude::*;

use crate::relay::spawn_manager::RelayFutureId;

verus! {

/// `dashmap::DashMap`: a map that threads can share.
#[verifier::external_type_specification]
#[verifier::external_body]
#[verifier::reject_recursive_types(K)]
#[verifier::reject_recursive_types(V)]
#[verifier::reject_recursive_types(S)]
pub struct ExDashMap<K, V, S>(DashMap<K, V, S>);

/// A map from the keys of relay tasks to the places where the tasks are kept.
pub type RelayMap = DashMap<(usize, usize), usize>;

/// The registry in which there is no relay task.
pub open spec fn no_relays() -> Map<(usize, usize), usize> {
    Map::empty()
}

/// The entries of `map`.
pub uninterp spec fn in_map(map: RelayMap) -> Map<(usize, usize), usize>;

/// `DashMap::new` makes a map without entries.
#[verifier::external_body]
fn map_new() -> (relays: RelayMap)
    ensures
        in_map(relays) == no_relays(),
{
    DashMap::new()
}

/// `DashMap::insert` enters `value` under `key`, in place of what was there.
#[verifier::external_body]
fn map_insert(map: &mut RelayMap, key: (usize, usize), value: usize)
    ensures
        in_map(*final(map)) == in_map(*old(map)).insert(key, value),
{
    map.insert(key, value);
}

/// `DashMap::remove` takes the entry under `key` out of the map, if there is one, and says whether
/// there was.
#[verifier::external_body]
fn map_remove(map: &mut RelayMap, key: (usize, usize)) -> (removed: bool)
    ensures
        in_map(*final(map)) == in_map(*old(map)).remove(key),
        removed == in_map(*old(map)).contains_key(key),
{
    map.remove(&key).is_some()
}

/// `DashMap::is_empty` says whether there is no entry.
#[verifier::external_body]
fn map_is_empty(map: &RelayMap) -> (empty: bool)
    ensures
        empty == (in_map(*map) == no_relays()),
{
    map.is_empty()
}

/// `DashMap::iter` visits every entry once, in no order that can be relied upon.
#[verifier::external_body]
fn map_values(map: &RelayMap) -> (values: Vec<usize>)
    ensures
        forall|value: usize| #[trigger]
            values@.contains(value) <==> in_map(*map).contains_value(value),
        values@.len() == in_map(*map).dom().len(),
{
    map.iter().map(|entry| *entry.value()).collect()
}

/// The key under which a relay task is registered.
pub open spec fn relay_key(id: RelayFutureId) -> (usize, usize) {
    (id.spawn_id, id.instance)
}

/// Where each registered relay task is kept.
#[derive(Debug)]
pub struct Registry {
    relays: RelayMap,
}

impl View for Registry {
    type V = Map<(usize, usize), usize>;

    closed spec fn view(&self) -> Map<(usize, usize), usize> {
        in_map(self.relays)
    }
}

impl Registry {
    /// A registry without relay tasks.
    pub fn new() -> (registry: Self)
        ensures
            registry@ == no_relays(),
    {
        Registry { relays: map_new() }
    }

    /// Registers the relay task `id`, which is kept in `slot`.
    pub fn insert(&mut self, id: RelayFutureId, slot: usize)
        ensures
            final(self)@ == old(self)@.insert(relay_key(id), slot),
    {
        map_insert(&mut self.relays, (id.spawn_id, id.instance), slot);
    }

    /// Strikes out the relay task `id` and says whether it was registered.
    pub fn remove(&mut self, id: RelayFutureId) -> (removed: bool)
        ensures
            final(self)@ == old(self)@.remove(relay_key(id)),
            removed == old(self)@.contains_key(relay_key(id)),
    {
        map_remove(&mut self.relays, (id.spawn_id, id.instance))
    }

    /// Whether no relay task is registered.
    pub fn is_empty(&self) -> (empty: bool)
        ensures
            empty == (self@ == no_relays()),
    {
        map_is_empty(&self.relays)
    }

    /// Where the registered relay tasks are kept, in any order.
    pub fn slots(&self) -> (slots: Vec<usize>)
        ensures
            forall|slot: usize| #[trigger]
                slots@.contains(slot) <==> self@.contains_value(slot),
            slots@.len() == self@.dom().len(),
    {
        map_values(&self.relays)
    }
}

} // verus!
