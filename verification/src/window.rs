//! Windows.
use vstd::prelude::*;
use std::collections::hash_map::DefaultHasher;
use std::hash::Hasher;
use vstd::std_specs::hash::DefaultHasherAdditionalSpecFns;

verus! {

/// What names a window.
#[derive(Clone, Copy, Debug, PartialEq, Eq, Hash, PartialOrd, Ord)]
pub struct Id(pub u64);

impl Id {
    /// The number that stands for the window. Two ids with one number are
    /// one id.
    pub open spec fn number(self) -> u64 {
        self.0
    }

    /// The id of the first window of an application.
    pub fn main() -> (id: Id)
        ensures
            id == Id(0),
    {
        Id(0)
    }

    /// The id that belongs to a key: the hash of the bytes of the key. One
    /// key gives one id, whenever it is asked for.
    pub fn new(key: &[u8]) -> (id: Id)
        ensures
            id == Id(DefaultHasher::spec_finish(seq![key@])),
    {
        let mut hasher = DefaultHasher::new();
        hasher.write(key);
        assert(hasher@ =~= seq![key@]);
        Id(hasher.finish())
    }
}

} // verus!
