//! Turning a file's text into numbered, tagged chunks.
use vstd::prelude::*;
use crate::rag::chunking::{window_text, OverlapStrategy, TextChunker};
use crate::rag::documents::{
    normalized_text, or_default, pairs_view, path_extension, path_file_name, DocumentChunk, DocumentLoader,
};
use crate::rag::errors::RagError;
use crate::text::{all_ws, decimal, string_from_chars, u64_to_decimal};

verus! {

/// A chunk id: the next value of a 64-bit counter that wraps around.
pub open spec fn wrapped_id(first_id: u64, k: int) -> u64 {
    if first_id + k <= u64::MAX {
        (first_id + k) as u64
    } else {
        (first_id + k - 0x1_0000_0000_0000_0000) as u64
    }
}

/// The chunks made of a file's text: one per word window of the
/// normalized text, numbered from `first_id`, each carrying the document's
/// metadata and its position as `chunk_sequence`.
pub open spec fn chunks_of_file(
    chunks: Seq<DocumentChunk>,
    path: Seq<char>,
    raw: Seq<char>,
    strategy: OverlapStrategy,
    first_id: u64,
) -> bool {
    let content = normalized_text(raw);
    let name = or_default(path_file_name(path), "unknown_source"@);
    let meta = seq![("source_file"@, name), ("file_type"@, or_default(path_extension(path), "txt"@))];
    let w = strategy.windows(content);
    &&& chunks.len() == w.len()
    &&& forall|k: int|
        0 <= k < chunks.len() ==> {
            let c = #[trigger] chunks[k];
            &&& c.id == wrapped_id(first_id, k)
            &&& c.document_id@ == name
            &&& c.text@ == window_text(content, w[k])
            &&& c.sequence_index == k
            &&& pairs_view(c.metadata@) == meta.push(("chunk_sequence"@, decimal(k as nat)))
        }
}

/// The counter chunk ids are drawn from: each chunk takes the next value,
/// and the counter wraps around past `u64::MAX`.
pub struct ChunkIdCounter {
    next: u64,
}

impl ChunkIdCounter {
    /// The id the next chunk will take.
    pub closed spec fn next_id(&self) -> u64 {
        self.next
    }

    /// A counter whose first id is 1.
    pub fn new() -> (c: Self)
        ensures
            c.next_id() == 1,
    {
        ChunkIdCounter { next: 1 }
    }

    /// A counter whose first id is `next`.
    pub fn starting_at(next: u64) -> (c: Self)
        ensures
            c.next_id() == next,
    {
        ChunkIdCounter { next }
    }

    /// The id the next chunk will take.
    pub fn peek(&self) -> (n: u64)
        ensures
            n == self.next_id(),
    {
        self.next
    }

    /// Makes sure ids already in use up to `id` are not handed out again:
    /// the counter moves past `id` unless it is there already (it stays at
    /// `u64::MAX` when `id` is the largest id).
    pub fn skip_past(&mut self, id: u64)
        ensures
            old(self).next_id() > id ==> final(self).next_id() == old(self).next_id(),
            old(self).next_id() <= id && id < u64::MAX ==> final(self).next_id() == id + 1,
            old(self).next_id() <= id && id == u64::MAX ==> final(self).next_id() == u64::MAX,
    {
        if self.next <= id {
            self.next = if id < u64::MAX {
                id + 1
            } else {
                u64::MAX
            };
        }
    }
}

/// Chunk ids are handed out once: the ids of one call increase one by one
/// from the counter, and any later call starts where this one left the
/// counter or beyond, so it reuses none of them — as long as the counter
/// does not wrap around.
pub proof fn law_chunk_ids_fresh(first: u64, n: int, later: u64)
    requires
        0 <= n,
        first + n <= later,
    ensures
        wrapped_id(first, n) == first + n,
        forall|a: int, b: int| 0 <= a < b < n ==> wrapped_id(first, a) < wrapped_id(first, b),
        forall|a: int, b: int|
            0 <= a < n && 0 <= b && later + b <= u64::MAX ==> wrapped_id(first, a) < wrapped_id(later, b),
{
}

/// Loads, chunks and tags documents.
pub struct IngestionPipeline {
    chunker: TextChunker,
}

impl IngestionPipeline {
    pub fn new(chunk_size: usize, chunk_overlap: usize) -> (p: Self)
        ensures
            p.strategy() == OverlapStrategy::new_spec(chunk_size, chunk_overlap),
    {
        IngestionPipeline { chunker: TextChunker::new(chunk_size, chunk_overlap) }
    }

    /// The windowing the pipeline's chunker applies.
    pub closed spec fn strategy(&self) -> OverlapStrategy {
        self.chunker.strategy_view()
    }

    /// The chunks of the file at `file_path` whose text is `raw_content`,
    /// with ids drawn from `ids` in order; a file without words is refused
    /// and draws no id.
    pub fn process_file(&self, file_path: &str, raw_content: &str, ids: &mut ChunkIdCounter) -> (r: Result<
        Vec<DocumentChunk>,
        RagError,
    >)
        requires
            self.strategy().chunk_size > 0 || all_ws(normalized_text(raw_content@)),
        ensures
            all_ws(normalized_text(raw_content@)) ==> (r matches Err(RagError::ChunkingError(m)) && m@
                == "Cannot partition completely empty text context structures"@) && final(ids).next_id()
                == old(ids).next_id(),
            !all_ws(normalized_text(raw_content@)) ==> (r matches Ok(chunks) && chunks_of_file(
                chunks@,
                file_path@,
                raw_content@,
                self.strategy(),
                old(ids).next_id(),
            ) && final(ids).next_id() == wrapped_id(old(ids).next_id(), chunks@.len() as int)),
    {
        let first_id = ids.next;
        let doc = DocumentLoader::load_from_file(file_path, raw_content);
        let pieces = match self.chunker.chunk_text(doc.content.as_str()) {
            Ok(p) => p,
            Err(e) => return Err(e),
        };
        let ghost w = self.strategy().windows(doc.content@);
        let ghost meta = pairs_view(doc.metadata@);
        let mut out: Vec<DocumentChunk> = Vec::new();
        let mut idx: usize = 0;
        while idx < pieces.len()
            invariant
                idx <= pieces@.len(),
                pieces@.len() == w.len(),
                forall|k: int| 0 <= k < pieces@.len() ==> #[trigger] pieces@[k]@ == window_text(doc.content@, w[k]),
                meta == pairs_view(doc.metadata@),
                out@.len() == idx,
                forall|k: int|
                    0 <= k < idx ==> {
                        let c = #[trigger] out@[k];
                        &&& c.id == wrapped_id(first_id, k)
                        &&& c.document_id@ == doc.id@
                        &&& c.text@ == window_text(doc.content@, w[k])
                        &&& c.sequence_index == k
                        &&& pairs_view(c.metadata@) == meta.push(("chunk_sequence"@, decimal(k as nat)))
                    },
            decreases pieces.len() - idx,
        {
            let mut metadata: Vec<(String, String)> = Vec::new();
            let mut j: usize = 0;
            while j < doc.metadata.len()
                invariant
                    j <= doc.metadata@.len(),
                    meta == pairs_view(doc.metadata@),
                    metadata@.len() == j,
                    forall|q: int| 0 <= q < j ==> #[trigger] pairs_view(metadata@)[q] == meta[q],
                decreases doc.metadata.len() - j,
            {
                let ghost m0 = metadata@;
                metadata.push((doc.metadata[j].0.clone(), doc.metadata[j].1.clone()));
                assert forall|q: int| 0 <= q < j implies #[trigger] pairs_view(metadata@)[q] == meta[q] by {
                    assert(metadata@[q] == m0[q]);
                    assert(pairs_view(m0)[q] == meta[q]);
                }
                j = j + 1;
            }
            let seq_text = u64_to_decimal(idx as u64);
            let ghost m1 = metadata@;
            metadata.push(("chunk_sequence".to_string(), string_from_chars(seq_text.as_slice())));
            assert(pairs_view(metadata@) =~= meta.push(("chunk_sequence"@, decimal(idx as nat)))) by {
                assert(pairs_view(m1) =~= meta);
            }
            let ghost o0 = out@;
            out.push(
                DocumentChunk {
                    id: first_id.wrapping_add(idx as u64),
                    document_id: doc.id.clone(),
                    text: pieces[idx].clone(),
                    sequence_index: idx,
                    metadata,
                },
            );
            assert forall|k: int| 0 <= k < idx implies #[trigger] out@[k] == o0[k] by {}
            idx = idx + 1;
        }
        ids.next = first_id.wrapping_add(out.len() as u64);
        Ok(out)
    }
}

} // verus!
