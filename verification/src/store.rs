//! The authoritative mapping from keys to values, owned by one node.
//!
//! The store is modelled as a mathematical map from character sequences to
//! character sequences; every operation states exactly how it changes that
//! map. The surrounding process is expected to guard the store with one
//! exclusive lock, so each operation here is a single serialized step.

use vstd::hash_map::StringHashMap;
use vstd::prelude::*;

verus! {

/// The in-memory key-value store of one node.
pub struct Store {
    map: StringHashMap<String>,
}

impl View for Store {
    type V = Map<Seq<char>, Seq<char>>;

    closed spec fn view(&self) -> Map<Seq<char>, Seq<char>> {
        Map::new(
            |k: Seq<char>| self.map@.dom().contains(k),
            |k: Seq<char>| self.map@[k]@,
        )
    }
}

impl Store {
    /// Creates an empty store.
    pub fn new() -> (s: Store)
        ensures
            s@ == Map::<Seq<char>, Seq<char>>::empty(),
    {
        let s = Store { map: StringHashMap::new() };
        proof {
            assert(s@ =~= Map::<Seq<char>, Seq<char>>::empty());
        }
        s
    }

    /// Looks a key up; `None` means the key is absent.
    pub fn get<'a>(&'a self, k: &str) -> (r: Option<&'a String>)
        ensures
            match r {
                Some(v) => self@.contains_key(k@) && v@ == self@[k@],
                None => !self@.contains_key(k@),
            },
    {
        self.map.get(k)
    }

    /// Inserts or overwrites one entry.
    pub fn insert(&mut self, k: String, v: String)
        ensures
            final(self)@ == old(self)@.insert(k@, v@),
    {
        let ghost key = k@;
        let ghost val = v@;
        self.map.insert(k, v);
        proof {
            assert(self@ =~= old(self)@.insert(key, val));
        }
    }

    /// Removes one entry if present; returns whether it was present.
    pub fn remove(&mut self, k: &str) -> (present: bool)
        ensures
            final(self)@ == old(self)@.remove(k@),
            present == old(self)@.contains_key(k@),
    {
        let present = self.map.contains_key(k);
        self.map.remove(k);
        proof {
            assert(self@ =~= old(self)@.remove(k@));
        }
        present
    }

    /// Returns the number of entries.
    pub fn len(&self) -> (n: usize)
        ensures
            n == self@.len(),
    {
        proof {
            broadcast use vstd::hash_map::group_hash_map_axioms;

            assert(self@.dom() =~= self.map@.dom());
        }
        self.map.len()
    }
}

} // verus!
