//! Signature-keyed table index.
//!
//! The ACPI root-table walker files every validated table under its
//! 4-byte signature.  The index is a `hashbrown::HashMap` from packed
//! signature keys to positions in the walker's table store, held behind
//! trusted wrappers whose contracts speak of the abstract `Map` it holds.

use vstd::prelude::*;

verus! {

/// A map from packed 4-byte table signatures to store positions, backed
/// by `hashbrown::HashMap`.
#[verifier::external_body]
pub struct SigIndex {
    map: hashbrown::HashMap<u32, usize>,
}

/// The entries the index holds, as an abstract map.
pub uninterp spec fn sig_index_view(m: SigIndex) -> Map<u32, usize>;

impl SigIndex {
    /// Relies on hashbrown::HashMap::new: a freshly created map is empty.
    #[verifier::external_body]
    pub fn new() -> (r: SigIndex)
        ensures
            sig_index_view(r).len() == 0,
            forall|k: u32| !sig_index_view(r).dom().contains(k),
    {
        SigIndex { map: hashbrown::HashMap::new() }
    }

    /// Relies on hashbrown::HashMap::contains_key: true iff the map holds
    /// a value for the key.
    #[verifier::external_body]
    pub fn contains(&self, key: u32) -> (r: bool)
        ensures
            r == sig_index_view(*self).dom().contains(key),
    {
        self.map.contains_key(&key)
    }

    /// Relies on hashbrown::HashMap::insert: the pair is added to the
    /// map, replacing any value the key already had.
    #[verifier::external_body]
    pub fn insert(&mut self, key: u32, value: usize)
        ensures
            sig_index_view(*final(self)) == sig_index_view(*old(self)).insert(key, value),
    {
        self.map.insert(key, value);
    }

    /// Relies on hashbrown::HashMap::get: the value the map holds for
    /// the key, or nothing.
    #[verifier::external_body]
    pub fn get(&self, key: u32) -> (r: Option<usize>)
        ensures
            match r {
                Some(v) => sig_index_view(*self).dom().contains(key) && sig_index_view(
                    *self,
                )[key] == v,
                None => !sig_index_view(*self).dom().contains(key),
            },
    {
        self.map.get(&key).copied()
    }

    /// Relies on hashbrown::HashMap::len: the number of entries the map
    /// holds.
    #[verifier::external_body]
    pub fn len(&self) -> (r: usize)
        ensures
            r == sig_index_view(*self).len(),
    {
        self.map.len()
    }
}

} // verus!
