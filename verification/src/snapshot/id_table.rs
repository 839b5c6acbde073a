//! A hash table from one 64-bit number to another.

use vstd::prelude::*;

verus! {

/// A table from 64-bit keys to 64-bit values, kept in a `bevy::utils::HashMap`.
/// Verus does not look inside: what the table holds is `id_table_entries`,
/// and the functions below say how the map's `default`, `insert`, `get` and
/// `len` relate to it.
#[verifier::external_body]
pub struct IdTable {
    inner: bevy::utils::HashMap<u64, u64>,
}

/// The key-value pairs that `table` holds.
pub uninterp spec fn id_table_entries(table: IdTable) -> Map<u64, u64>;

impl IdTable {
    /// `HashMap::default`: a map without entries.
    #[verifier::external_body]
    pub(crate) fn empty() -> (r: IdTable)
        ensures
            id_table_entries(r) == (Map::<u64, u64>::empty()),
    {
        IdTable { inner: bevy::utils::HashMap::default() }
    }

    /// `HashMap::insert`: afterwards `key` maps to `value` and every other key
    /// to what it mapped to before.
    #[verifier::external_body]
    pub(crate) fn insert(&mut self, key: u64, value: u64)
        ensures
            id_table_entries(*final(self)) == id_table_entries(*old(self)).insert(
                key,
                value,
            ),
    {
        self.inner.insert(key, value);
    }

    /// `HashMap::get`: the value that `key` maps to, if the map has the key.
    #[verifier::external_body]
    pub(crate) fn get(&self, key: u64) -> (r: Option<u64>)
        ensures
            r == if id_table_entries(*self).contains_key(key) {
                Some(id_table_entries(*self)[key])
            } else {
                None
            },
    {
        self.inner.get(&key).copied()
    }

    /// `HashMap::len`: the number of keys.
    #[verifier::external_body]
    pub(crate) fn len(&self) -> (r: usize)
        ensures
            r == id_table_entries(*self).dom().len(),
    {
        self.inner.len()
    }
}

} // verus!
