//! Documents and chunks of the retrieval pipeline: their metadata, how a
//! file's text becomes a document, and how chunks are filtered by metadata.
use vstd::prelude::*;
use crate::server::api::split_on;
use crate::text::{all_ws, chars_of, join, join_with, rfind_spec, split_whitespace, string_from_chars, words};
use crate::llm::tools::str_eq;

verus! {

/// Key/value pairs as texts.
pub open spec fn pairs_view(v: Seq<(String, String)>) -> Seq<(Seq<char>, Seq<char>)> {
    v.map_values(|p: (String, String)| (p.0@, p.1@))
}

/// No key occurs twice.
pub open spec fn keys_distinct(e: Seq<(Seq<char>, Seq<char>)>) -> bool {
    forall|i: int, j: int| 0 <= i < j < e.len() ==> #[trigger] e[i].0 != #[trigger] e[j].0
}

/// The value of the first pair with the given key.
pub open spec fn lookup(e: Seq<(Seq<char>, Seq<char>)>, key: Seq<char>) -> Option<Seq<char>>
    decreases e.len(),
{
    if e.len() == 0 {
        None
    } else if e[0].0 == key {
        Some(e[0].1)
    } else {
        lookup(e.drop_first(), key)
    }
}

/// Position of the first pair with the given key.
pub fn find_key(pairs: &Vec<(String, String)>, key: &str) -> (r: Option<usize>)
    ensures
        match lookup(pairs_view(pairs@), key@) {
            None => r is None,
            Some(v) => r matches Some(i) && i < pairs@.len() && pairs@[i as int].0@ == key@ && pairs@[i as int].1@ == v,
        },
        r matches Some(i) ==> forall|q: int| 0 <= q < i ==> pairs@[q].0@ != key@,
{
    let ghost pv = pairs_view(pairs@);
    let mut i: usize = 0;
    assert(pv.skip(0) =~= pv);
    while i < pairs.len()
        invariant
            i <= pairs@.len(),
            pv == pairs_view(pairs@),
            lookup(pv, key@) == lookup(pv.skip(i as int), key@),
            forall|q: int| 0 <= q < i ==> pairs@[q].0@ != key@,
        decreases pairs.len() - i,
    {
        assert(pv.skip(i as int)[0] == pv[i as int]);
        assert(pv.skip(i as int).drop_first() =~= pv.skip(i + 1));
        if str_eq(pairs[i].0.as_str(), key) {
            return Some(i);
        }
        i = i + 1;
    }
    None
}

/// A string-to-string map with each key present once, kept in insertion
/// order (the metadata of documents and the criteria of filters). It is a
/// list of pairs, as chunk metadata is stored: vstd specifies `HashMap`
/// only for keys with a key model, which `String` has not, so a hash map
/// here would come with no contract to prove against.
pub struct MetadataMap {
    entries: Vec<(String, String)>,
}

impl MetadataMap {
    #[verifier::type_invariant]
    spec fn keys_unique(self) -> bool {
        keys_distinct(pairs_view(self.entries@))
    }

    /// The pairs of the map.
    pub closed spec fn pairs(self) -> Seq<(Seq<char>, Seq<char>)> {
        pairs_view(self.entries@)
    }

    /// An empty map.
    pub fn new() -> (m: Self)
        ensures
            m.pairs().len() == 0,
    {
        MetadataMap { entries: Vec::new() }
    }

    /// Sets the value of a key: an existing key keeps its place, a new one
    /// goes last.
    pub fn insert(&mut self, key: String, value: String)
        ensures
            lookup(old(self).pairs(), key@) is Some ==> final(self).pairs().len() == old(self).pairs().len()
                && forall|i: int|
                0 <= i < old(self).pairs().len() ==> #[trigger] final(self).pairs()[i] == if old(self).pairs()[i].0
                    == key@ {
                    (key@, value@)
                } else {
                    old(self).pairs()[i]
                },
            lookup(old(self).pairs(), key@) is None ==> final(self).pairs() == old(self).pairs().push((key@, value@)),
    {
        proof {
            use_type_invariant(&*self);
        }
        let ghost before = pairs_view(self.entries@);
        let mut entries: Vec<(String, String)> = Vec::new();
        std::mem::swap(&mut entries, &mut self.entries);
        match find_key(&entries, key.as_str()) {
            Some(i) => {
                let ghost kv = key@;
                let ghost vv = value@;
                entries.set(i, (key, value));
                assert forall|q: int| 0 <= q < before.len() implies #[trigger] pairs_view(entries@)[q] == if before[q].0 == kv {
                    (kv, vv)
                } else {
                    before[q]
                } by {
                    if q != i {
                        assert(before[q].0 != before[i as int].0);
                    }
                }
                assert forall|a: int, b: int| 0 <= a < b < pairs_view(entries@).len() implies #[trigger] pairs_view(entries@)[a].0
                    != #[trigger] pairs_view(entries@)[b].0 by {
                    assert(before[a].0 != before[b].0);
                }
                self.entries = entries;
            },
            None => {
                let ghost kv = key@;
                proof {
                    lemma_lookup_none(before, kv);
                }
                entries.push((key, value));
                assert(pairs_view(entries@) =~= before.push((kv, value@)));
                self.entries = entries;
            },
        }
    }

    /// The number of keys.
    pub fn len(&self) -> (n: usize)
        ensures
            n == self.pairs().len(),
    {
        self.entries.len()
    }

    /// The pairs, in insertion order.
    pub fn entries(&self) -> (r: &Vec<(String, String)>)
        ensures
            pairs_view(r@) == self.pairs(),
            keys_distinct(self.pairs()),
    {
        proof {
            use_type_invariant(self);
        }
        &self.entries
    }
}

/// A key that `lookup` does not find occurs nowhere.
pub proof fn lemma_lookup_none(e: Seq<(Seq<char>, Seq<char>)>, key: Seq<char>)
    requires
        lookup(e, key) is None,
    ensures
        forall|i: int| 0 <= i < e.len() ==> #[trigger] e[i].0 != key,
    decreases e.len(),
{
    if e.len() > 0 {
        lemma_lookup_none(e.drop_first(), key);
        assert forall|i: int| 0 <= i < e.len() implies #[trigger] e[i].0 != key by {
            if i > 0 {
                assert(e[i] == e.drop_first()[i - 1]);
            }
        }
    }
}

/// A chunk of a document, ready for embedding and retrieval.
#[derive(Clone, Debug)]
pub struct DocumentChunk {
    pub id: u64,
    pub document_id: String,
    pub text: String,
    pub sequence_index: usize,
    pub metadata: Vec<(String, String)>,
}

/// A loaded document: its id, its text and its metadata.
pub struct RawDocument {
    pub id: String,
    pub content: String,
    pub metadata: Vec<(String, String)>,
}

impl RawDocument {
    /// A document with the given id, text and metadata (the metadata keeps
    /// the map's order).
    pub fn new(id: String, content: String, metadata: MetadataMap) -> (d: Self)
        ensures
            d.id@ == id@,
            d.content@ == content@,
            pairs_view(d.metadata@) == metadata.pairs(),
    {
        let m = metadata.entries();
        let mut dense: Vec<(String, String)> = Vec::new();
        let mut i: usize = 0;
        while i < m.len()
            invariant
                i <= m@.len(),
                dense@.len() == i,
                forall|q: int| 0 <= q < i ==> #[trigger] pairs_view(dense@)[q] == pairs_view(m@)[q],
            decreases m.len() - i,
        {
            let ghost d0 = dense@;
            dense.push((m[i].0.clone(), m[i].1.clone()));
            assert forall|q: int| 0 <= q < i implies #[trigger] pairs_view(dense@)[q] == pairs_view(m@)[q] by {
                assert(dense@[q] == d0[q]);
                assert(pairs_view(d0)[q] == pairs_view(m@)[q]);
            }
            i = i + 1;
        }
        assert(pairs_view(dense@) =~= pairs_view(m@));
        RawDocument { id, content, metadata: dense }
    }
}

/// The named parts of a `/`-separated path, as `Path::components` reads it on
/// Unix: empty parts (repeated or trailing separators) and `.` parts are not
/// names.
pub open spec fn path_parts(path: Seq<char>) -> Seq<Seq<char>> {
    split_on(path, '/').filter(|c: Seq<char>| c.len() > 0 && c != seq!['.'])
}

/// The last component of a path, as `Path::file_name` gives it: the last
/// named part, unless there is none or it is `..`.
pub open spec fn path_file_name(path: Seq<char>) -> Option<Seq<char>> {
    let parts = path_parts(path);
    if parts.len() == 0 || parts.last() == seq!['.', '.'] {
        None
    } else {
        Some(parts.last())
    }
}

/// The extension of a path's last component, as `Path::extension` gives it:
/// what follows the file name's last `.`, where that dot is not its first
/// character.
pub open spec fn path_extension(path: Seq<char>) -> Option<Seq<char>> {
    match path_file_name(path) {
        None => None,
        Some(name) => match rfind_spec(name, seq!['.']) {
            Some(i) => if i == 0 {
                None
            } else {
                Some(name.skip(i + 1))
            },
            None => None,
        },
    }
}

pub open spec fn opt_view(o: Option<String>) -> Option<Seq<char>> {
    match o {
        Some(s) => Some(s@),
        None => None,
    }
}

/// `Path::file_name` of a path given as text (the path's text is UTF-8, so
/// the name converts back to text).
#[verifier::external_body]
pub(crate) fn file_name_of(path: &str) -> (r: Option<String>)
    ensures
        opt_view(r) == path_file_name(path@),
{
    std::path::Path::new(path).file_name().and_then(|n| n.to_str()).map(|n| n.to_string())
}

/// `Path::extension` of a path given as text.
#[verifier::external_body]
pub(crate) fn extension_of(path: &str) -> (r: Option<String>)
    ensures
        opt_view(r) == path_extension(path@),
{
    std::path::Path::new(path).extension().and_then(|n| n.to_str()).map(|n| n.to_string())
}

/// The text with runs of whitespace collapsed to single spaces and no
/// whitespace at either end.
pub open spec fn normalized_text(s: Seq<char>) -> Seq<char> {
    join(words(s), " "@)
}

/// Collapses whitespace as loading a document does.
pub fn normalize_whitespace(s: &str) -> (r: String)
    ensures
        r@ == normalized_text(s@),
{
    let cs = chars_of(s);
    let ws = split_whitespace(&cs);
    let sep = chars_of(" ");
    assert(ws@.map_values(|p: Vec<char>| p@) =~= words(s@));
    let joined = join_with(&ws, &sep);
    string_from_chars(joined.as_slice())
}

pub open spec fn or_default(o: Option<Seq<char>>, d: Seq<char>) -> Seq<char> {
    match o {
        Some(s) => s,
        None => d,
    }
}

/// The document a file's text gives: named after the file (else
/// `unknown_source`), with its whitespace collapsed, and with the file name
/// and extension (else `txt`) as metadata.
pub open spec fn loaded_document(d: RawDocument, path: Seq<char>, raw: Seq<char>) -> bool {
    let name = or_default(path_file_name(path), "unknown_source"@);
    &&& d.id@ == name
    &&& d.content@ == normalized_text(raw)
    &&& pairs_view(d.metadata@) == seq![
        ("source_file"@, name),
        ("file_type"@, or_default(path_extension(path), "txt"@)),
    ]
}

/// Loader of text documents.
pub struct DocumentLoader;

impl DocumentLoader {
    /// The document for the file at `path` whose text is `raw_content`.
    pub fn load_from_file(path: &str, raw_content: &str) -> (d: RawDocument)
        ensures
            loaded_document(d, path@, raw_content@),
    {
        let name = match file_name_of(path) {
            Some(n) => n,
            None => "unknown_source".to_string(),
        };
        let file_type = match extension_of(path) {
            Some(e) => e,
            None => "txt".to_string(),
        };
        let content = normalize_whitespace(raw_content);
        let mut metadata: Vec<(String, String)> = Vec::new();
        metadata.push(("source_file".to_string(), name.clone()));
        metadata.push(("file_type".to_string(), file_type));
        let ghost mv = metadata@;
        assert(pairs_view(mv) =~= seq![(mv[0].0@, mv[0].1@), (mv[1].0@, mv[1].1@)]);
        RawDocument { id: name, content, metadata }
    }
}

/// Whether a chunk carries every criterion: each criterion's key is found
/// in the chunk's metadata with the same value (the first occurrence
/// counts), and the chunk has at least as many pairs as there are criteria.
pub open spec fn filter_matches(chunk_meta: Seq<(Seq<char>, Seq<char>)>, criteria: Seq<(Seq<char>, Seq<char>)>) -> bool {
    &&& criteria.len() <= chunk_meta.len()
    &&& forall|i: int| 0 <= i < criteria.len() ==> lookup(chunk_meta, #[trigger] criteria[i].0) == Some(criteria[i].1)
}

/// Metadata filter of retrieved chunks.
pub struct MetadataFilter;

impl MetadataFilter {
    /// Whether the chunk's metadata satisfies all the criteria.
    pub fn matches(chunk: &DocumentChunk, criteria: &MetadataMap) -> (b: bool)
        ensures
            b == filter_matches(pairs_view(chunk.metadata@), criteria.pairs()),
    {
        let c = criteria.entries();
        if c.len() > chunk.metadata.len() {
            return false;
        }
        let ghost cv = pairs_view(c@);
        let ghost mv = pairs_view(chunk.metadata@);
        let mut i: usize = 0;
        while i < c.len()
            invariant
                i <= c@.len(),
                cv == pairs_view(c@),
                cv == criteria.pairs(),
                c@.len() <= chunk.metadata@.len(),
                mv == pairs_view(chunk.metadata@),
                forall|q: int| 0 <= q < i ==> lookup(mv, #[trigger] cv[q].0) == Some(cv[q].1),
            decreases c.len() - i,
        {
            match find_key(&chunk.metadata, c[i].0.as_str()) {
                Some(j) => {
                    if !str_eq(chunk.metadata[j].1.as_str(), c[i].1.as_str()) {
                        assert(lookup(mv, cv[i as int].0) != Some(cv[i as int].1));
                        return false;
                    }
                },
                None => {
                    assert(lookup(mv, cv[i as int].0) is None);
                    return false;
                },
            }
            i = i + 1;
        }
        true
    }
}


/// The value found for a key is that of the first pair carrying the key.
proof fn lemma_lookup_first_pair(e: Seq<(Seq<char>, Seq<char>)>, key: Seq<char>, value: Seq<char>)
    ensures
        lookup(e, key) == Some(value) <==> exists|j: int|
            0 <= j < e.len() && #[trigger] e[j] == (key, value) && forall|q: int| 0 <= q < j ==> (#[trigger] e[q]).0 != key,
    decreases e.len(),
{
    if e.len() > 0 {
        let t = e.drop_first();
        lemma_lookup_first_pair(t, key, value);
        if e[0].0 == key {
            if lookup(e, key) == Some(value) {
                assert(e[0] == (key, value));
            }
            if exists|j: int| 0 <= j < e.len() && #[trigger] e[j] == (key, value) && forall|q: int| 0 <= q < j ==> (#[trigger] e[q]).0 != key {
                let j = choose|j: int| 0 <= j < e.len() && #[trigger] e[j] == (key, value) && forall|q: int| 0 <= q < j ==> (#[trigger] e[q]).0 != key;
                if j > 0 {
                    assert(e[0].0 != key);
                }
                assert(e[0] == (key, value));
            }
        } else {
            if lookup(t, key) == Some(value) {
                let j = choose|j: int| 0 <= j < t.len() && #[trigger] t[j] == (key, value) && forall|q: int| 0 <= q < j ==> (#[trigger] t[q]).0 != key;
                assert(e[j + 1] == t[j]);
                assert forall|q: int| 0 <= q < j + 1 implies (#[trigger] e[q]).0 != key by {
                    if q > 0 {
                        assert(e[q] == t[q - 1]);
                    }
                }
            }
            if exists|j: int| 0 <= j < e.len() && #[trigger] e[j] == (key, value) && forall|q: int| 0 <= q < j ==> (#[trigger] e[q]).0 != key {
                let j = choose|j: int| 0 <= j < e.len() && #[trigger] e[j] == (key, value) && forall|q: int| 0 <= q < j ==> (#[trigger] e[q]).0 != key;
                assert(j > 0);
                assert(t[j - 1] == e[j]);
                assert forall|q: int| 0 <= q < j - 1 implies (#[trigger] t[q]).0 != key by {
                    assert(t[q] == e[q + 1]);
                }
            }
        }
    }
}

/// A chunk matches the criteria exactly when it has at least as many pairs
/// as there are criteria and, for every criterion `(key, value)`, the first
/// pair of the chunk's metadata with that key exists and holds that value.
/// So one criterion whose key the chunk lacks, or finds with another value,
/// is enough for the chunk not to match, wherever that criterion stands.
pub proof fn law_filter_needs_every_criterion(chunk_meta: Seq<(Seq<char>, Seq<char>)>, criteria: Seq<(Seq<char>, Seq<char>)>, i: int)
    ensures
        filter_matches(chunk_meta, criteria) <==> criteria.len() <= chunk_meta.len() && forall|k: int|
            0 <= k < criteria.len() ==> exists|j: int|
                0 <= j < chunk_meta.len() && #[trigger] chunk_meta[j] == #[trigger] criteria[k] && forall|q: int|
                    0 <= q < j ==> (#[trigger] chunk_meta[q]).0 != criteria[k].0,
        0 <= i < criteria.len() && (forall|j: int|
            0 <= j < chunk_meta.len() && (#[trigger] chunk_meta[j]).0 == criteria[i].0 ==> chunk_meta[j].1
                != criteria[i].1) ==> !filter_matches(chunk_meta, criteria),
{
    if filter_matches(chunk_meta, criteria) {
        assert forall|k: int| 0 <= k < criteria.len() implies exists|j: int|
            0 <= j < chunk_meta.len() && #[trigger] chunk_meta[j] == #[trigger] criteria[k] && forall|q: int|
                0 <= q < j ==> (#[trigger] chunk_meta[q]).0 != criteria[k].0 by {
            lemma_lookup_first_pair(chunk_meta, criteria[k].0, criteria[k].1);
            assert(lookup(chunk_meta, criteria[k].0) == Some(criteria[k].1));
        }
    }
    if criteria.len() <= chunk_meta.len() && forall|k: int|
        0 <= k < criteria.len() ==> exists|j: int|
            0 <= j < chunk_meta.len() && #[trigger] chunk_meta[j] == #[trigger] criteria[k] && forall|q: int|
                0 <= q < j ==> (#[trigger] chunk_meta[q]).0 != criteria[k].0 {
        assert forall|k: int| 0 <= k < criteria.len() implies lookup(chunk_meta, #[trigger] criteria[k].0) == Some(criteria[k].1) by {
            lemma_lookup_first_pair(chunk_meta, criteria[k].0, criteria[k].1);
            let c = criteria[k];
            assert(c == (c.0, c.1));
        }
    }
    if 0 <= i < criteria.len() && (forall|j: int|
        0 <= j < chunk_meta.len() && (#[trigger] chunk_meta[j]).0 == criteria[i].0 ==> chunk_meta[j].1 != criteria[i].1) {
        lemma_lookup_first_pair(chunk_meta, criteria[i].0, criteria[i].1);
        assert(lookup(chunk_meta, criteria[i].0) != Some(criteria[i].1));
    }
}

/// No criteria select every chunk; more criteria than the chunk has pairs
/// select none.
pub proof fn law_filter_criteria_count(chunk_meta: Seq<(Seq<char>, Seq<char>)>, criteria: Seq<(Seq<char>, Seq<char>)>)
    ensures
        criteria.len() == 0 ==> filter_matches(chunk_meta, criteria),
        criteria.len() > chunk_meta.len() ==> !filter_matches(chunk_meta, criteria),
{
}

} // verus!
