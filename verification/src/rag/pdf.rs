//! The text layer of a PDF, read page by page with `lopdf`.
use vstd::prelude::*;
use crate::errors::AppError;
use crate::text::starts_with;

verus! {

#[verifier::external_type_specification]
#[verifier::external_body]
pub struct ExPdfDocument(lopdf::Document);

#[verifier::external_type_specification]
#[verifier::external_body]
pub struct ExPdfError(lopdf::Error);

/// Whether `lopdf::Document::load_mem` parses the bytes as a PDF.
pub uninterp spec fn pdf_parses(bytes: Seq<u8>) -> bool;

/// The number of pages `lopdf::Document::get_pages` lists for the document
/// `load_mem` parses from the bytes.
pub uninterp spec fn pdf_page_count(bytes: Seq<u8>) -> nat;

/// The text `lopdf::Document::extract_text` gives for one page of the
/// document `load_mem` parses from the bytes; `None` where it fails.
pub uninterp spec fn pdf_page_text_of(bytes: Seq<u8>, page: u32) -> Option<Seq<char>>;

/// A document as `lopdf` parsed it, with the bytes it was parsed from. Only
/// `load_pdf` makes one.
pub struct LoadedPdf {
    doc: lopdf::Document,
    source: Ghost<Seq<u8>>,
}

impl LoadedPdf {
    /// The bytes the document was parsed from.
    pub closed spec fn source(&self) -> Seq<u8> {
        self.source@
    }
}

/// `lopdf::Document::load_mem`: parses a PDF held in memory. Its errors are
/// returned, not raised: the reader and parser report malformed input as
/// `lopdf::Error`.
#[verifier::external_body]
fn load_pdf(bytes: &[u8]) -> (r: Result<LoadedPdf, lopdf::Error>)
    ensures
        r is Ok <==> pdf_parses(bytes@),
        r matches Ok(d) ==> d.source() == bytes@,
{
    match lopdf::Document::load_mem(bytes) {
        Ok(doc) => Ok(LoadedPdf { doc, source: Ghost(bytes@) }),
        Err(e) => Err(e),
    }
}

/// The text `Display` gives for a `lopdf` error; nothing is stated of it.
#[verifier::external_body]
fn pdf_error_text(e: &lopdf::Error) -> String {
    e.to_string()
}

/// The keys of `lopdf::Document::get_pages`, in order: one per page. The
/// crate numbers the pages of the page tree from 1 in the order it walks
/// them, so (while the count fits in a `u32`) the k-th key is k + 1.
#[verifier::external_body]
fn pdf_page_numbers(pdf: &LoadedPdf) -> (r: Vec<u32>)
    ensures
        r@.len() == pdf_page_count(pdf.source()),
        r@.len() <= u32::MAX ==> forall|k: int| 0 <= k < r@.len() ==> #[trigger] r@[k] == k + 1,
{
    pdf.doc.get_pages().keys().cloned().collect()
}

/// `lopdf::Document::extract_text` on one page, `None` where it fails (a
/// malformed page is reported as an error).
#[verifier::external_body]
fn pdf_page_text(pdf: &LoadedPdf, page: u32) -> (r: Option<String>)
    ensures
        text_view(r) == pdf_page_text_of(pdf.source(), page),
{
    pdf.doc.extract_text(&[page]).ok()
}

pub open spec fn text_view(t: Option<String>) -> Option<Seq<char>> {
    match t {
        Some(s) => Some(s@),
        None => None,
    }
}

/// What one page adds to the text layer: its text and a newline, or
/// nothing where its text could not be read.
pub open spec fn page_block(t: Option<Seq<char>>) -> Seq<char> {
    match t {
        Some(s) => s + "\n"@,
        None => Seq::empty(),
    }
}

/// The text layer made of the pages' texts, in page order.
pub open spec fn joined_pages(texts: Seq<Option<Seq<char>>>) -> Seq<char>
    decreases texts.len(),
{
    if texts.len() == 0 {
        Seq::empty()
    } else {
        joined_pages(texts.drop_last()) + page_block(texts.last())
    }
}

pub open spec fn texts_view(texts: Seq<Option<String>>) -> Seq<Option<Seq<char>>> {
    texts.map_values(|t: Option<String>| text_view(t))
}

/// The texts of the pages of the PDF in the bytes, pages numbered from 1.
pub open spec fn pdf_page_texts(bytes: Seq<u8>) -> Seq<Option<Seq<char>>> {
    Seq::new(pdf_page_count(bytes), |k: int| pdf_page_text_of(bytes, (k + 1) as u32))
}

/// The text layer of the PDF in the bytes.
pub open spec fn pdf_text_layer(bytes: Seq<u8>) -> Seq<char> {
    joined_pages(pdf_page_texts(bytes))
}

/// Joins the texts read from the pages, in order, each followed by a
/// newline; a page that could not be read adds nothing.
pub fn join_page_texts(texts: &Vec<Option<String>>) -> (r: String)
    ensures
        r@ == joined_pages(texts_view(texts@)),
{
    let mut out = String::new();
    let mut i: usize = 0;
    while i < texts.len()
        invariant
            i <= texts@.len(),
            out@ == joined_pages(texts_view(texts@.take(i as int))),
        decreases texts.len() - i,
    {
        assert(texts_view(texts@.take(i + 1)).drop_last() =~= texts_view(texts@.take(i as int)));
        match &texts[i] {
            Some(t) => {
                out.append(t.as_str());
                out.append("\n");
            },
            None => {},
        }
        i = i + 1;
    }
    assert(texts@.take(texts@.len() as int) =~= texts@);
    out
}

/// The message with which a PDF that does not parse is refused.
pub open spec fn pdf_parse_failure_prefix() -> Seq<char> {
    "Failed parsing PDF binary structure: "@
}

/// Reads the text layer of a PDF held in memory: the document is parsed,
/// then the text of each page is read in page order and joined as
/// `join_page_texts` says. A document that does not parse is refused with
/// an inference error naming the parser's complaint.
///
/// The service still runs it on a blocking thread under a guard, since the
/// document comes from outside.
pub fn extract_text_with_lopdf(pdf_bytes: &[u8]) -> (r: Result<String, AppError>)
    ensures
        r is Ok <==> pdf_parses(pdf_bytes@),
        r matches Err(e) ==> (e matches AppError::InferenceError(m) && starts_with(
            m@,
            pdf_parse_failure_prefix(),
        )),
        pdf_page_count(pdf_bytes@) <= u32::MAX ==> (r matches Ok(t) ==> t@ == pdf_text_layer(pdf_bytes@)),
{
    let doc = match load_pdf(pdf_bytes) {
        Ok(d) => d,
        Err(e) => {
            let mut m = String::new();
            m.append("Failed parsing PDF binary structure: ");
            m.append(pdf_error_text(&e).as_str());
            proof {
                assert(m@.subrange(0, pdf_parse_failure_prefix().len() as int)
                    =~= pdf_parse_failure_prefix());
            }
            return Err(AppError::InferenceError(m));
        },
    };
    let ghost src = pdf_bytes@;
    let pages = pdf_page_numbers(&doc);
    let mut texts: Vec<Option<String>> = Vec::new();
    let mut i: usize = 0;
    while i < pages.len()
        invariant
            i <= pages@.len(),
            doc.source() == src,
            pages@.len() == pdf_page_count(src),
            pages@.len() <= u32::MAX ==> forall|k: int| 0 <= k < pages@.len() ==> #[trigger] pages@[k] == k + 1,
            pages@.len() <= u32::MAX ==> texts_view(texts@) == pdf_page_texts(src).take(i as int),
            texts@.len() == i,
        decreases pages.len() - i,
    {
        let ghost before = texts@;
        let t = pdf_page_text(&doc, pages[i]);
        texts.push(t);
        proof {
            if pages@.len() <= u32::MAX {
                assert(pages@[i as int] == i + 1);
                assert(texts_view(texts@) =~= texts_view(before).push(text_view(t)));
                assert(pdf_page_texts(src).take(i + 1) =~= pdf_page_texts(src).take(i as int).push(
                    pdf_page_texts(src)[i as int],
                ));
            }
        }
        i = i + 1;
    }
    let full = join_page_texts(&texts);
    proof {
        if pages@.len() <= u32::MAX {
            assert(pdf_page_texts(src).take(i as int) =~= pdf_page_texts(src));
        }
    }
    Ok(full)
}

} // verus!
