//! The chunk table of the in-memory vector store: chunks by id.
use vstd::prelude::*;
use std::collections::HashMap;
use crate::rag::documents::DocumentChunk;

verus! {

broadcast use vstd::std_specs::hash::group_hash_axioms;

/// Chunks by id; inserting a chunk replaces any earlier one with its id.
pub struct ChunkStore {
    chunks: HashMap<u64, DocumentChunk>,
}

impl ChunkStore {
    /// The stored chunks, by id.
    pub closed spec fn contents(&self) -> Map<u64, DocumentChunk> {
        self.chunks@
    }

    /// An empty store.
    pub fn new() -> (s: Self)
        ensures
            s.contents() == Map::<u64, DocumentChunk>::empty(),
    {
        ChunkStore { chunks: HashMap::new() }
    }

    /// Stores a chunk under its id.
    pub fn insert(&mut self, chunk: DocumentChunk)
        ensures
            final(self).contents() == old(self).contents().insert(chunk.id, chunk),
    {
        let id = chunk.id;
        self.chunks.insert(id, chunk);
    }

    /// The chunk stored under an id.
    pub fn get_chunk(&self, id: u64) -> (r: Option<&DocumentChunk>)
        ensures
            match r {
                Some(c) => self.contents().contains_key(id) && *c == self.contents()[id],
                None => !self.contents().contains_key(id),
            },
    {
        self.chunks.get(&id)
    }

    /// The number of stored chunks.
    pub fn len(&self) -> (n: usize)
        ensures
            n == self.contents().len(),
    {
        self.chunks.len()
    }

    /// Removes every chunk.
    pub fn clear(&mut self)
        ensures
            final(self).contents() == Map::<u64, DocumentChunk>::empty(),
    {
        self.chunks.clear();
    }
}

/// Reading a chunk back after storing it gives that chunk; other ids are
/// untouched.
pub proof fn law_store_read_after_write(m: Map<u64, DocumentChunk>, chunk: DocumentChunk, other: u64)
    requires
        other != chunk.id,
    ensures
        m.insert(chunk.id, chunk).contains_key(chunk.id),
        m.insert(chunk.id, chunk)[chunk.id] == chunk,
        m.insert(chunk.id, chunk).contains_key(other) == m.contains_key(other),
        m.contains_key(other) ==> m.insert(chunk.id, chunk)[other] == m[other],
{
}

} // verus!
