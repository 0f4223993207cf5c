//! The hash table that keeps a world's chunks, keyed by grid coordinate.
//!
//! The table itself is `bevy::utils::HashMap`. Nothing in this file is
//! proved: each function states what the map's method does to the table's
//! contents, and the rest of the crate is verified against these statements.

use vstd::prelude::*;
use crate::chunk::Chunk;

verus! {

/// Key of a chunk in the table: the three components of its grid coordinate.
pub type ChunkKey = (isize, isize, isize);

/// A `bevy::utils::HashMap` from grid coordinates to chunks.
#[verifier::external_body]
pub struct ChunkTable {
    inner: bevy::utils::HashMap<ChunkKey, Chunk>,
}

/// The chunks that a table holds, by key.
pub uninterp spec fn table_chunks(table: ChunkTable) -> Map<ChunkKey, Chunk>;

impl ChunkTable {
    /// `HashMap::new`: a table that holds no chunk.
    #[verifier::external_body]
    pub(crate) fn new() -> (made: ChunkTable)
        ensures
            table_chunks(made).dom() == Set::<ChunkKey>::empty(),
    {
        ChunkTable { inner: bevy::utils::HashMap::new() }
    }

    /// `HashMap::contains_key`: whether the table holds a chunk under `key`.
    #[verifier::external_body]
    pub(crate) fn contains_key(&self, key: &ChunkKey) -> (found: bool)
        ensures
            found == table_chunks(*self).dom().contains(*key),
    {
        self.inner.contains_key(key)
    }

    /// `HashMap::entry` followed by `Entry::or_insert`: the chunk stored under
    /// `key`, after storing `fresh` there if the key was vacant. No other
    /// entry changes, and what the caller writes through the returned
    /// reference is what the table holds under `key` afterwards.
    #[verifier::external_body]
    pub(crate) fn entry_or_insert(&mut self, key: ChunkKey, fresh: Chunk) -> (slot: &mut Chunk)
        ensures
            *slot == (if table_chunks(*old(self)).dom().contains(key) {
                table_chunks(*old(self))[key]
            } else {
                fresh
            }),
            table_chunks(*final(self)) == table_chunks(*old(self)).insert(key, *final(slot)),
    {
        self.inner.entry(key).or_insert(fresh)
    }
}

} // verus!
