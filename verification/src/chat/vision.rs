//! Attachments of a chat message and the text extracted from them.
use vstd::prelude::*;
use crate::text::{chars_of, join, slice_chars, string_from_chars, trim, trim_end, trimmed};
use crate::llm::tools::{join_strings, strings_view};
use unicode_normalization::UnicodeNormalization;

verus! {

/// A file attached to a chat message.
pub enum VisionAttachment {
    Image(Vec<u8>),
    Pdf(Vec<u8>),
    Chart(Vec<u8>),
}

/// The kind of an attachment: 0 image, 1 PDF, 2 chart.
pub open spec fn attachment_kind(a: VisionAttachment) -> int {
    match a {
        VisionAttachment::Image(_) => 0,
        VisionAttachment::Pdf(_) => 1,
        VisionAttachment::Chart(_) => 2,
    }
}

pub open spec fn attachment_bytes(a: VisionAttachment) -> Seq<u8> {
    match a {
        VisionAttachment::Image(b) => b@,
        VisionAttachment::Pdf(b) => b@,
        VisionAttachment::Chart(b) => b@,
    }
}

/// Extracts text from chat attachments; `model_dir` is where the OCR
/// models live, when not the default place.
pub struct VisionChatbotService {
    pub model_dir: Option<String>,
}

impl VisionChatbotService {
    pub fn new() -> (s: Self)
        ensures
            s.model_dir is None,
    {
        VisionChatbotService { model_dir: None }
    }

    pub fn with_model_dir(model_dir: String) -> (s: Self)
        ensures
            s.model_dir matches Some(d) && d@ == model_dir@,
    {
        VisionChatbotService { model_dir: Some(model_dir) }
    }
}

/// Most attachments processed at once.
pub const MAX_VISION_FILES: usize = 3;

/// Why a batch of attachments was refused.
pub open spec fn too_many_files_text() -> Seq<char> {
    "A maximum of 3 files can be processed at once."@
}

/// The check made before any attachment is processed: at most three.
pub fn check_attachment_count(count: usize) -> (r: Result<(), String>)
    ensures
        count <= MAX_VISION_FILES <==> r is Ok,
        r matches Err(m) ==> m@ == too_many_files_text(),
{
    if count > MAX_VISION_FILES {
        return Err("A maximum of 3 files can be processed at once.".to_string());
    }
    Ok(())
}

/// The decimal digits of a small positive number.
fn small_decimal(n: usize) -> (r: String)
    requires
        n < 0x1_0000_0000_0000_0000,
    ensures
        r@ == crate::text::decimal(n as nat),
{
    let d = crate::text::u64_to_decimal(n as u64);
    string_from_chars(d.as_slice())
}

/// The block of one file's extracted text.
pub open spec fn file_block(k: int, text: Seq<char>) -> Seq<char> {
    "--- FILE #"@ + crate::text::decimal((k + 1) as nat) + " EXTRACTED CONTEXT ---\n"@ + trim(text)
}

/// The text extracted from the attachments, one block per file in order,
/// blocks separated by a blank line.
pub open spec fn combined_extractions(texts: Seq<Seq<char>>) -> Seq<char> {
    join(Seq::new(texts.len(), |k: int| file_block(k, texts[k])), "\n\n"@)
}

/// Combines the texts extracted from the files, in order.
pub fn combine_extractions(texts: &Vec<String>) -> (r: String)
    ensures
        r@ == combined_extractions(strings_view(texts@)),
{
    let ghost tv = strings_view(texts@);
    let mut blocks: Vec<String> = Vec::new();
    let mut i: usize = 0;
    while i < texts.len()
        invariant
            i <= texts@.len(),
            tv == strings_view(texts@),
            blocks@.len() == i,
            forall|k: int| 0 <= k < i ==> #[trigger] blocks@[k]@ == file_block(k, tv[k]),
        decreases texts.len() - i,
    {
        let mut b = String::new();
        b.append("--- FILE #");
        b.append(small_decimal(i + 1).as_str());
        b.append(" EXTRACTED CONTEXT ---\n");
        let t = trimmed(&chars_of(texts[i].as_str()));
        b.append(string_from_chars(t.as_slice()).as_str());
        blocks.push(b);
        i = i + 1;
    }
    assert(strings_view(blocks@) =~= Seq::new(tv.len(), |k: int| file_block(k, tv[k])));
    join_strings(&blocks, "\n\n")
}

/// The NFKC normal form of a text (`unicode_normalization`'s `nfkc`).
pub uninterp spec fn nfkc(s: Seq<char>) -> Seq<char>;

/// Applies `unicode_normalization::UnicodeNormalization::nfkc`.
#[verifier::external_body]
pub(crate) fn nfkc_text(s: &str) -> (r: String)
    ensures
        r@ == nfkc(s@),
{
    s.nfkc().collect::<String>()
}

/// The lines of a text as `str::lines` gives them: split at `\n`, a `\r`
/// before the `\n` dropped, and no empty last line after a final `\n`.
pub open spec fn text_lines(s: Seq<char>) -> Seq<Seq<char>> {
    let pieces = crate::server::api::split_on(s, '\n');
    let kept = if pieces.last().len() == 0 {
        pieces.drop_last()
    } else {
        pieces
    };
    kept.map_values(|l: Seq<char>| if l.len() > 0 && l.last() == '\r' {
        l.drop_last()
    } else {
        l
    })
}

/// OCR output tidied: NFKC-normalized, trailing whitespace removed from
/// every line, surrounding whitespace removed.
pub open spec fn sanitized_ocr(raw: Seq<char>) -> Seq<char> {
    trim(join(text_lines(nfkc(raw)).map_values(|l: Seq<char>| trim_end(l)), "\n"@))
}

/// The lines of a text, as `str::lines` gives them.
pub fn lines_of(cs: &Vec<char>) -> (r: Vec<Vec<char>>)
    ensures
        r@.map_values(|l: Vec<char>| l@) == text_lines(cs@),
{
    let pieces = crate::server::api::split_chars(cs, '\n');
    let ghost pv = pieces@.map_values(|p: Vec<char>| p@);
    proof {
        crate::server::api::lemma_split_nonempty(cs@, '\n');
    }
    let count = if pieces[pieces.len() - 1].len() == 0 {
        pieces.len() - 1
    } else {
        pieces.len()
    };
    let ghost kept = if pv.last().len() == 0 {
        pv.drop_last()
    } else {
        pv
    };
    let ghost lines = text_lines(cs@);
    let mut out: Vec<Vec<char>> = Vec::new();
    let mut i: usize = 0;
    while i < count
        invariant
            i <= count,
            count == kept.len(),
            count <= pieces@.len(),
            pv == pieces@.map_values(|p: Vec<char>| p@),
            kept == if pv.last().len() == 0 {
                pv.drop_last()
            } else {
                pv
            },
            lines == text_lines(cs@),
            pv == crate::server::api::split_on(cs@, '\n'),
            out@.len() == i,
            forall|k: int| 0 <= k < i ==> #[trigger] out@[k]@ == lines[k],
        decreases count - i,
    {
        let p = &pieces[i];
        let line = if p.len() > 0 && p[p.len() - 1] == '\r' {
            slice_chars(p, 0, p.len() - 1)
        } else {
            slice_chars(p, 0, p.len())
        };
        assert(kept[i as int] == pv[i as int]);
        assert(p@.subrange(0, p@.len() as int) =~= p@);
        assert(p@.len() > 0 ==> p@.subrange(0, p@.len() - 1) =~= p@.drop_last());
        out.push(line);
        i = i + 1;
    }
    assert(out@.map_values(|p: Vec<char>| p@) =~= lines);
    out
}

/// Tidies OCR output for the model.
pub fn sanitize_ocr_text(raw_text: &str) -> (r: String)
    ensures
        r@ == sanitized_ocr(raw_text@),
{
    let n = nfkc_text(raw_text);
    let cs = chars_of(n.as_str());
    let ls = lines_of(&cs);
    let ghost lines = text_lines(cs@);
    let mut out: Vec<Vec<char>> = Vec::new();
    let mut i: usize = 0;
    while i < ls.len()
        invariant
            i <= ls@.len(),
            ls@.map_values(|l: Vec<char>| l@) == lines,
            out@.len() == i,
            forall|k: int| 0 <= k < i ==> #[trigger] out@[k]@ == trim_end(lines[k]),
        decreases ls.len() - i,
    {
        assert(ls@[i as int]@ == lines[i as int]);
        let te = crate::text::trimmed_end(&ls[i]);
        out.push(te);
        i = i + 1;
    }
    assert(out@.map_values(|p: Vec<char>| p@) =~= lines.map_values(|l: Seq<char>| trim_end(l)));
    let sep = chars_of("\n");
    let joined = crate::text::join_with(&out, &sep);
    let t = trimmed(&joined);
    string_from_chars(t.as_slice())
}

/// Whether bytes start with the JPEG signature `FF D8 FF`.
pub open spec fn is_jpeg_spec(bytes: Seq<u8>) -> bool {
    bytes.len() >= 3 && bytes[0] == 0xFF && bytes[1] == 0xD8 && bytes[2] == 0xFF
}

/// Whether bytes start with the JPEG signature `FF D8 FF`.
pub fn is_jpeg(bytes: &[u8]) -> (b: bool)
    ensures
        b == is_jpeg_spec(bytes@),
{
    bytes.len() >= 3 && bytes[0] == 0xFF && bytes[1] == 0xD8 && bytes[2] == 0xFF
}

#[verifier::external_type_specification]
#[verifier::external_body]
pub struct ExDynamicImage(image::DynamicImage);

/// Whether `image::load_from_memory` decodes the bytes (in a format this
/// build reads).
pub uninterp spec fn image_decodes(bytes: Seq<u8>) -> bool;

/// The bytes `image::DynamicImage::write_to` with `ImageFormat::Jpeg`
/// writes for the image `image::load_from_memory` decodes from `source`;
/// `None` where encoding fails.
pub uninterp spec fn jpeg_encoding(source: Seq<u8>) -> Option<Seq<u8>>;

/// An image as `image` decoded it, with the bytes it was decoded from. Only
/// `decode_image` makes one.
pub struct DecodedImage {
    img: image::DynamicImage,
    source: Ghost<Seq<u8>>,
}

impl DecodedImage {
    /// The bytes the image was decoded from.
    pub closed spec fn source(&self) -> Seq<u8> {
        self.source@
    }
}

/// `image::load_from_memory`, `None` where it fails. Whether it succeeds
/// depends on the bytes alone.
#[verifier::external_body]
fn decode_image(bytes: &[u8]) -> (r: Option<DecodedImage>)
    ensures
        r is Some <==> image_decodes(bytes@),
        r matches Some(d) ==> d.source() == bytes@,
{
    match image::load_from_memory(bytes) {
        Ok(img) => Some(DecodedImage { img, source: Ghost(bytes@) }),
        Err(_) => None,
    }
}

/// `image::DynamicImage::write_to` with `ImageFormat::Jpeg` into a buffer in
/// memory, `None` where encoding fails. Decoding and encoding read only the
/// source bytes, so the result is named by them. The encoder writes the
/// start-of-image marker `FF D8` and then the marker of its first segment
/// (`FF E0`) before anything else, so encoded bytes carry the JPEG signature.
#[verifier::external_body]
fn encode_jpeg(img: &DecodedImage) -> (r: Option<Vec<u8>>)
    ensures
        match jpeg_encoding(img.source()) {
            Some(t) => r matches Some(v) && v@ == t,
            None => r is None,
        },
        r matches Some(v) ==> is_jpeg_spec(v@),
{
    let mut out: Vec<u8> = Vec::new();
    match img.img.write_to(&mut std::io::Cursor::new(&mut out), image::ImageFormat::Jpeg) {
        Ok(()) => Some(out),
        Err(_) => None,
    }
}

/// The embedded 1x1 PNG used to warm the engine up and to stand in for
/// streams that are not images.
pub open spec fn dummy_png() -> Seq<u8> {
    seq![
        0x89u8, 0x50, 0x4E, 0x47, 0x0D, 0x0A, 0x1A, 0x0A, 0x00, 0x00, 0x00, 0x0D, 0x49, 0x48,
        0x44, 0x52, 0x00, 0x00, 0x00, 0x01, 0x00, 0x00, 0x00, 0x01, 0x08, 0x06, 0x00, 0x00,
        0x00, 0x1F, 0x15, 0xC4, 0x89, 0x00, 0x00, 0x00, 0x0A, 0x49, 0x44, 0x41, 0x54, 0x78,
        0x9C, 0x63, 0x00, 0x01, 0x00, 0x00, 0x05, 0x00, 0x01, 0x0D, 0x0A, 0x2D, 0xB4, 0x00,
        0x00, 0x00, 0x00, 0x49, 0x45, 0x4E, 0x44, 0xAE, 0x42, 0x60, 0x82,
    ]
}

/// The embedded 1x1 PNG.
pub fn dummy_png_bytes() -> (v: Vec<u8>)
    ensures
        v@ == dummy_png(),
{
    let v: Vec<u8> = vec![
        0x89u8, 0x50, 0x4E, 0x47, 0x0D, 0x0A, 0x1A, 0x0A, 0x00, 0x00, 0x00, 0x0D, 0x49, 0x48,
        0x44, 0x52, 0x00, 0x00, 0x00, 0x01, 0x00, 0x00, 0x00, 0x01, 0x08, 0x06, 0x00, 0x00,
        0x00, 0x1F, 0x15, 0xC4, 0x89, 0x00, 0x00, 0x00, 0x0A, 0x49, 0x44, 0x41, 0x54, 0x78,
        0x9C, 0x63, 0x00, 0x01, 0x00, 0x00, 0x05, 0x00, 0x01, 0x0D, 0x0A, 0x2D, 0xB4, 0x00,
        0x00, 0x00, 0x00, 0x49, 0x45, 0x4E, 0x44, 0xAE, 0x42, 0x60, 0x82,
    ];
    assert(v@ =~= dummy_png());
    v
}

/// What re-encoding the embedded PNG gives: it is refused as not loading
/// exactly when it does not decode; once decoded, its JPEG encoding (which
/// carries the JPEG signature), or the encoding failure where there is none.
pub open spec fn fallback_outcome(r: Result<Vec<u8>, String>) -> bool {
    if !image_decodes(dummy_png()) {
        r matches Err(m) && m@ == "Failed to load embedded dummy fallback image"@
    } else {
        match jpeg_encoding(dummy_png()) {
            Some(t) => r matches Ok(v) && v@ == t && is_jpeg_spec(v@),
            None => r matches Err(m) && m@ == "Failed to transcode fallback dummy image to JPEG"@,
        }
    }
}

/// The embedded PNG re-encoded as JPEG, for inputs that cannot be read.
pub fn transcode_fallback_dummy() -> (r: Result<Vec<u8>, String>)
    ensures
        fallback_outcome(r),
{
    let png = dummy_png_bytes();
    let img = match decode_image(png.as_slice()) {
        Some(i) => i,
        None => return Err("Failed to load embedded dummy fallback image".to_string()),
    };
    match encode_jpeg(&img) {
        Some(j) => Ok(j),
        None => Err("Failed to transcode fallback dummy image to JPEG".to_string()),
    }
}

/// An owned copy of bytes.
fn copy_bytes(b: &[u8]) -> (v: Vec<u8>)
    ensures
        v@ == b@,
{
    let mut v: Vec<u8> = Vec::new();
    let mut i: usize = 0;
    while i < b.len()
        invariant
            i <= b@.len(),
            v@ == b@.take(i as int),
        decreases b.len() - i,
    {
        v.push(b[i]);
        i = i + 1;
        assert(v@ =~= b@.take(i as int));
    }
    assert(b@.take(b@.len() as int) =~= b@);
    v
}

/// Makes sure the engine gets JPEG bytes: JPEG input passes unchanged;
/// other input that decodes as an image is re-encoded as JPEG; empty input
/// and input that does not decode are replaced by the embedded PNG
/// re-encoded as JPEG.
pub fn filter_and_ensure_jpeg(input: &[u8]) -> (r: Result<Vec<u8>, String>)
    ensures
        input@.len() == 0 ==> fallback_outcome(r),
        input@.len() > 0 && is_jpeg_spec(input@) ==> (r matches Ok(v) && v@ == input@),
        input@.len() > 0 && !is_jpeg_spec(input@) && !image_decodes(input@) ==> fallback_outcome(r),
        input@.len() > 0 && !is_jpeg_spec(input@) && image_decodes(input@) ==> match jpeg_encoding(input@) {
            Some(t) => r matches Ok(v) && v@ == t && is_jpeg_spec(v@),
            None => r matches Err(m) && m@ == "Failed to transcode image format to JPEG"@,
        },
{
    if input.len() == 0 {
        return transcode_fallback_dummy();
    }
    if is_jpeg(input) {
        return Ok(copy_bytes(input));
    }
    match decode_image(input) {
        Some(img) => match encode_jpeg(&img) {
            Some(j) => Ok(j),
            None => Err("Failed to transcode image format to JPEG".to_string()),
        },
        None => transcode_fallback_dummy(),
    }
}

/// The input kinds the OCR engine reads.
pub enum DocumentInput {
    RawImageBytes(Vec<u8>),
    PdfDocumentBytes(Vec<u8>),
    FinancialChartBytes(Vec<u8>),
}

impl DocumentInput {
    /// The colour channels the engine is asked for by default: four for a
    /// PDF page, three otherwise.
    pub fn default_channels(&self) -> (c: usize)
        ensures
            c == if *self is PdfDocumentBytes {
                4usize
            } else {
                3usize
            },
    {
        match self {
            DocumentInput::PdfDocumentBytes(_) => 4,
            _ => 3,
        }
    }
}

/// The refusal of an empty input of the OCR service, by kind.
pub fn empty_input_error(input: &DocumentInput) -> (r: Option<String>)
    ensures
        match input {
            DocumentInput::RawImageBytes(b) => if b@.len() == 0 {
                r matches Some(m) && m@ == "Provided image byte buffer is empty"@
            } else {
                r is None
            },
            DocumentInput::PdfDocumentBytes(b) => if b@.len() == 0 {
                r matches Some(m) && m@ == "Provided PDF byte buffer is empty"@
            } else {
                r is None
            },
            DocumentInput::FinancialChartBytes(b) => if b@.len() == 0 {
                r matches Some(m) && m@ == "Provided financial chart byte buffer is empty"@
            } else {
                r is None
            },
        },
{
    match input {
        DocumentInput::RawImageBytes(b) => if b.len() == 0 {
            Some("Provided image byte buffer is empty".to_string())
        } else {
            None
        },
        DocumentInput::PdfDocumentBytes(b) => if b.len() == 0 {
            Some("Provided PDF byte buffer is empty".to_string())
        } else {
            None
        },
        DocumentInput::FinancialChartBytes(b) => if b.len() == 0 {
            Some("Provided financial chart byte buffer is empty".to_string())
        } else {
            None
        },
    }
}

} // verus!
