//! The knowledge service's own rules: which files it ingests and how their
//! text is cleaned, how the embedding model's path is normalized, and what
//! the trusted-source synchronization does with each remote file.
use vstd::prelude::*;
use crate::chat::vision::nfkc;
use crate::rag::retrieval::{lowercase, to_lowercase_text};
use crate::text::{
    all_ws, chars_of, has_prefix, join, join_with, lit, slice_chars, split_whitespace, starts_with,
    string_from_chars, words,
};
use crate::llm::tools::str_eq;
use crate::errors::AppError;

verus! {

/// Whether a character is alphabetic or numeric in Unicode, as
/// `char::is_alphanumeric` says.
pub uninterp spec fn unicode_alphanumeric(c: char) -> bool;

/// `char::is_alphanumeric`.
#[verifier::external_body]
fn is_alphanumeric(c: char) -> (b: bool)
    ensures
        b == unicode_alphanumeric(c),
{
    c.is_alphanumeric()
}

/// `char::is_ascii_punctuation`.
pub open spec fn ascii_punctuation(c: char) -> bool {
    ('!' <= c && c <= '/') || (':' <= c && c <= '@') || ('[' <= c && c <= '`') || ('{' <= c && c <= '~')
}

/// The characters kept for embedding: letters, digits, ASCII punctuation,
/// spaces, newlines and tabs.
pub open spec fn kept_for_embedding(c: char) -> bool {
    unicode_alphanumeric(c) || ascii_punctuation(c) || c == ' ' || c == '\n' || c == '\t'
}

/// The characters of `s` that are kept, in order.
pub open spec fn kept_chars(s: Seq<char>) -> Seq<char>
    decreases s.len(),
{
    if s.len() == 0 {
        Seq::empty()
    } else if kept_for_embedding(s.last()) {
        kept_chars(s.drop_last()).push(s.last())
    } else {
        kept_chars(s.drop_last())
    }
}

/// Text prepared for embedding: NFKC-normalized, stripped of other
/// characters, whitespace collapsed to single spaces.
pub open spec fn embedding_text(raw: Seq<char>) -> Seq<char> {
    join(words(kept_chars(nfkc(raw))), " "@)
}

/// Prepares a document's text for embedding.
pub fn sanitize_text_for_embedding(raw_text: &str) -> (r: String)
    ensures
        r@ == embedding_text(raw_text@),
{
    let n = crate::chat::vision::nfkc_text(raw_text);
    let cs = chars_of(n.as_str());
    let mut kept: Vec<char> = Vec::new();
    let mut i: usize = 0;
    while i < cs.len()
        invariant
            i <= cs@.len(),
            kept@ == kept_chars(cs@.take(i as int)),
        decreases cs.len() - i,
    {
        let c = cs[i];
        assert(cs@.take(i + 1).drop_last() =~= cs@.take(i as int));
        if is_alphanumeric(c) || (('!' <= c && c <= '/') || (':' <= c && c <= '@') || ('[' <= c && c <= '`') || ('{'
            <= c && c <= '~')) || c == ' ' || c == '\n' || c == '\t' {
            kept.push(c);
        }
        i = i + 1;
    }
    assert(cs@.take(cs@.len() as int) =~= cs@);
    let ws = split_whitespace(&kept);
    assert(ws@.map_values(|p: Vec<char>| p@) =~= words(kept@));
    let joined = join_with(&ws, &chars_of(" "));
    string_from_chars(joined.as_slice())
}

/// How a document is ingested, by its lowercased extension.
pub enum IngestKind {
    /// Plain text, JSON or CSV: read as text.
    Text,
    /// PDF: its text layer is extracted first.
    Pdf,
    /// Anything else is refused; the lowercased extension.
    Unsupported(String),
}

pub open spec fn ingest_kind_of(ext_lower: Seq<char>) -> int {
    if ext_lower == "txt"@ || ext_lower == "json"@ || ext_lower == "csv"@ {
        0
    } else if ext_lower == "pdf"@ {
        1
    } else {
        2
    }
}

/// Sorts a document by its extension (empty when it has none).
pub fn ingest_kind(extension: Option<&str>) -> (k: IngestKind)
    ensures
        ({
            let e = lowercase(
                match extension {
                    Some(x) => x@,
                    None => ""@,
                },
            );
            match k {
                IngestKind::Text => ingest_kind_of(e) == 0,
                IngestKind::Pdf => ingest_kind_of(e) == 1,
                IngestKind::Unsupported(x) => ingest_kind_of(e) == 2 && x@ == e,
            }
        }),
{
    proof {
        reveal_strlit("txt");
        reveal_strlit("json");
        reveal_strlit("csv");
        reveal_strlit("pdf");
    }
    let raw = match extension {
        Some(x) => x,
        None => "",
    };
    let lower = to_lowercase_text(raw);
    let l = lower.as_str();
    if str_eq(l, "txt") || str_eq(l, "json") || str_eq(l, "csv") {
        IngestKind::Text
    } else if str_eq(l, "pdf") {
        IngestKind::Pdf
    } else {
        IngestKind::Unsupported(lower.clone())
    }
}

/// The refusal of a document format.
pub fn unsupported_format_error(ext_lower: &str) -> (e: AppError)
    ensures
        e matches AppError::InferenceError(m) && m@ == "Unsupported document format: ."@ + ext_lower@,
{
    let mut m = String::new();
    m.append("Unsupported document format: .");
    m.append(ext_lower);
    AppError::InferenceError(m)
}

/// The refusal of a text document without text, if it has none.
pub fn blank_text_error(content: &str) -> (r: Option<AppError>)
    ensures
        all_ws(content@) ==> (r matches Some(AppError::InferenceError(m)) && m@
            == "Document contains no readable text layers."@),
        !all_ws(content@) ==> r is None,
{
    if crate::text::is_blank(&chars_of(content)) {
        Some(AppError::InferenceError("Document contains no readable text layers.".to_string()))
    } else {
        None
    }
}

/// The refusal of a PDF without a text layer, if it has none.
pub fn blank_pdf_error(extracted: &str, file_path: &str) -> (r: Option<AppError>)
    ensures
        all_ws(extracted@) ==> (r matches Some(AppError::InferenceError(m)) && m@
            == "PDF file contains no parseable text layers: "@ + file_path@),
        !all_ws(extracted@) ==> r is None,
{
    if crate::text::is_blank(&chars_of(extracted)) {
        let mut m = String::new();
        m.append("PDF file contains no parseable text layers: ");
        m.append(file_path);
        Some(AppError::InferenceError(m))
    } else {
        None
    }
}

/// The embedding model's directory as the native engine wants it: a
/// Windows verbatim prefix `\\?\` dropped and backslashes turned into
/// slashes.
pub open spec fn engine_model_path(canonical: Seq<char>) -> Seq<char> {
    let p = if starts_with(canonical, "\\\\?\\"@) {
        canonical.skip(4)
    } else {
        canonical
    };
    p.map_values(|c: char| if c == '\\' { '/' } else { c })
}

/// Normalizes the canonical path of the embedding model's directory.
pub fn clean_model_path(canonical: &str) -> (r: String)
    ensures
        r@ == engine_model_path(canonical@),
{
    proof {
        reveal_strlit("\\\\?\\");
    }
    let cs = chars_of(canonical);
    let p = if has_prefix(&cs, &lit("\\\\?\\")) {
        slice_chars(&cs, 4, cs.len())
    } else {
        slice_chars(&cs, 0, cs.len())
    };
    assert(cs@.subrange(4, cs@.len() as int) =~= cs@.skip(4));
    assert(cs@.subrange(0, cs@.len() as int) =~= cs@);
    let mut out: Vec<char> = Vec::new();
    let mut i: usize = 0;
    while i < p.len()
        invariant
            i <= p@.len(),
            out@ == p@.take(i as int).map_values(|c: char| if c == '\\' { '/' } else { c }),
        decreases p.len() - i,
    {
        let c = p[i];
        out.push(if c == '\\' { '/' } else { c });
        i = i + 1;
        assert(out@ =~= p@.take(i as int).map_values(|c: char| if c == '\\' { '/' } else { c }));
    }
    assert(p@.take(p@.len() as int) =~= p@);
    string_from_chars(out.as_slice())
}

/// The Drive query for the trusted-documents folder.
pub const FOLDER_QUERY: &'static str = "name contains 'Llm docs' and (mimeType = 'application/vnd.google-apps.folder' or mimeType = 'application/vnd.google-apps.shortcut') and trashed = false";

/// The Drive query for the files directly inside a folder.
pub fn objects_query(folder_id: &str) -> (q: String)
    ensures
        q@ == "'"@ + folder_id@ + "' in parents and trashed = false"@,
{
    let mut q = String::new();
    q.append("'");
    q.append(folder_id);
    q.append("' in parents and trashed = false");
    q
}

/// What the synchronization does with one remote file.
pub enum AssetAction {
    /// Nothing: the file has no id or no name.
    Skip,
    /// Re-ingest the copy already downloaded under this name.
    UseLocal { name: String },
    /// Download the file under this name, then ingest it.
    Download { id: String, name: String },
}

/// Decides what to do with a remote file, given whether a local file of
/// its name exists.
pub fn plan_asset(id: Option<&str>, name: Option<&str>, exists_locally: bool) -> (a: AssetAction)
    ensures
        match (id, name) {
            (Some(i), Some(n)) => if exists_locally {
                a matches AssetAction::UseLocal { name: m } && m@ == n@
            } else {
                a matches AssetAction::Download { id: j, name: m } && j@ == i@ && m@ == n@
            },
            _ => a is Skip,
        },
{
    match (id, name) {
        (Some(i), Some(n)) => if exists_locally {
            AssetAction::UseLocal { name: n.to_string() }
        } else {
            AssetAction::Download { id: i.to_string(), name: n.to_string() }
        },
        _ => AssetAction::Skip,
    }
}

} // verus!
