//! The states that custom pipelines keep from frame to frame.
use vstd::prelude::*;
use std::collections::HashMap;

verus! {

broadcast use vstd::std_specs::hash::group_hash_axioms;

/// Holds one state for each kind of custom pipeline.
///
/// A state is filed under the key of its type. Whoever draws with two
/// pipelines that file under one key shares one state between them.
pub struct Storage<S> {
    pipelines: HashMap<u64, S>,
}

/// `HashMap::get_mut`: a mutable reference to the value at `key`, if there
/// is one. What the caller leaves in the reference is the value at `key`
/// afterwards; nothing else in the map changes.
#[verifier::external_body]
fn value_mut<'a, S>(map: &'a mut HashMap<u64, S>, key: u64) -> (value: Option<&'a mut S>)
    ensures
        match value {
            Some(v) => old(map)@.contains_key(key) && *v == old(map)@[key] && final(map)@ == old(
                map,
            )@.insert(key, *final(v)),
            None => !old(map)@.contains_key(key) && final(map)@ == old(map)@,
        },
{
    map.get_mut(&key)
}

impl<S> View for Storage<S> {
    type V = Map<u64, S>;

    /// The states by their keys.
    closed spec fn view(&self) -> Map<u64, S> {
        self.pipelines@
    }
}

impl<S> Storage<S> {
    /// A storage that holds nothing.
    pub fn new() -> (storage: Storage<S>)
        ensures
            storage@ == Map::<u64, S>::empty(),
    {
        Storage { pipelines: HashMap::new() }
    }

    /// Whether a state is filed under `key`.
    pub fn has(&self, key: u64) -> (found: bool)
        ensures
            found == self@.contains_key(key),
    {
        self.pipelines.contains_key(&key)
    }

    /// Files `state` under `key`, in place of what was filed there.
    pub fn store(&mut self, key: u64, state: S)
        ensures
            final(self)@ == old(self)@.insert(key, state),
    {
        let _ = self.pipelines.insert(key, state);
    }

    /// The state filed under `key`.
    pub fn get(&self, key: u64) -> (state: Option<&S>)
        ensures
            match state {
                Some(s) => self@.contains_key(key) && *s == self@[key],
                None => !self@.contains_key(key),
            },
    {
        self.pipelines.get(&key)
    }

    /// The state filed under `key`, to be changed in place.
    pub fn get_mut(&mut self, key: u64) -> (state: Option<&mut S>)
        ensures
            match state {
                Some(s) => old(self)@.contains_key(key) && *s == old(self)@[key] && final(self)@
                    == old(self)@.insert(key, *final(s)),
                None => !old(self)@.contains_key(key) && final(self)@ == old(self)@,
            },
    {
        value_mut(&mut self.pipelines, key)
    }
}

impl<S> Default for Storage<S> {
    fn default() -> (storage: Storage<S>)
        ensures
            storage@ == Map::<u64, S>::empty(),
    {
        Storage::new()
    }
}

/// What filing a state on first use leaves in the storage: the state that
/// was there, or `fresh` where there was none.
pub open spec fn registered<S>(stored: Map<u64, S>, key: u64, fresh: S) -> Map<u64, S> {
    if stored.contains_key(key) {
        stored
    } else {
        stored.insert(key, fresh)
    }
}

/// Filing on first use, done twice under one key, files one state: the
/// second state is not filed, no entry is added, and what the first has left
/// under the key stays there.
pub proof fn lemma_registered_once<S>(stored: Map<u64, S>, key: u64, first: S, second: S)
    ensures
        registered(registered(stored, key, first), key, second) == registered(stored, key, first),
        registered(stored, key, first).dom() == stored.dom().insert(key),
        !stored.contains_key(key) ==> registered(registered(stored, key, first), key, second)[key]
            == first,
{
    assert(registered(stored, key, first).dom() =~= stored.dom().insert(key));
}

/// A change made through `get_mut` is what `get` finds afterwards, and no
/// other state is touched by it.
pub proof fn lemma_change_is_kept<S>(stored: Map<u64, S>, key: u64, changed: S, other: u64)
    requires
        stored.contains_key(key),
    ensures
        stored.insert(key, changed)[key] == changed,
        stored.insert(key, changed).dom() == stored.dom(),
        other != key && stored.contains_key(other) ==> stored.insert(key, changed)[other]
            == stored[other],
{
    assert(stored.insert(key, changed).dom() =~= stored.dom());
}

} // verus!
