//! The chat endpoints' own logic: request defaults, reading attachments,
//! and sorting the orchestrator's stream into reply text and tool markers.
use vstd::prelude::*;
use crate::chat::vision::{attachment_bytes, attachment_kind, VisionAttachment};
use crate::rag::retrieval::{lowercase, to_lowercase_text};
use crate::text::{chars_of, has_prefix, lit, slice_chars, starts_with, string_from_chars};
use crate::llm::tools::str_eq;
use base64::Engine;

verus! {

/// An attachment as a JSON chat request carries it.
pub struct ChatAttachmentPayload {
    pub file_type: String,
    pub bytes_base64: String,
}

/// A chat request.
pub struct ChatRequest {
    pub message: String,
    pub session_id: Option<i64>,
    pub max_tokens: i64,
    pub attachments: Vec<ChatAttachmentPayload>,
}

/// Token budget of a chat request that names none.
pub fn default_max_tokens() -> (n: i64)
    ensures
        n == 512,
{
    512
}

/// Number of history messages listed when the request names none.
pub fn default_limit() -> (n: i64)
    ensures
        n == 50,
{
    50
}

/// The bytes standard base64 (`base64::engine::general_purpose::STANDARD`)
/// decodes a text to, or `None` when it is not valid base64.
pub uninterp spec fn base64_decoded(s: Seq<char>) -> Option<Seq<u8>>;

/// `STANDARD.decode`.
#[verifier::external_body]
fn decode_base64(s: &str) -> (r: Option<Vec<u8>>)
    ensures
        match r {
            Some(b) => base64_decoded(s@) == Some(b@),
            None => base64_decoded(s@) is None,
        },
{
    base64::engine::general_purpose::STANDARD.decode(s).ok()
}

/// The kind a lowercased file type names: 0 image, 1 PDF, 2 chart.
pub open spec fn file_type_kind(t: Seq<char>) -> Option<int> {
    if t == "image"@ || t == "png"@ || t == "jpg"@ || t == "jpeg"@ {
        Some(0)
    } else if t == "pdf"@ {
        Some(1)
    } else if t == "chart"@ {
        Some(2)
    } else {
        None
    }
}

/// The first `n` attachments read in order: each is decoded, then its type
/// looked up; the first failure ends the reading.
pub open spec fn read_attachments(raw: Seq<ChatAttachmentPayload>, n: int) -> Result<Seq<(int, Seq<u8>)>, Seq<char>>
    decreases n,
{
    if n <= 0 {
        Ok(seq![])
    } else {
        match read_attachments(raw, n - 1) {
            Err(e) => Err(e),
            Ok(v) => match base64_decoded(raw[n - 1].bytes_base64@) {
                None => Err("Invalid base64 encoding in attachment payload."@),
                Some(b) => match file_type_kind(lowercase(raw[n - 1].file_type@)) {
                    None => Err("Unsupported attachment file_type."@),
                    Some(k) => Ok(v.push((k, b))),
                },
            },
        }
    }
}

/// Once reading fails, reading more attachments fails the same way.
proof fn lemma_read_error_sticks(raw: Seq<ChatAttachmentPayload>, k: int, n: int)
    requires
        0 < k <= n,
        read_attachments(raw, k) is Err,
    ensures
        read_attachments(raw, n) == read_attachments(raw, k),
    decreases n - k,
{
    if k < n {
        lemma_read_error_sticks(raw, k, n - 1);
    }
}

/// The attachments as kind and bytes.
pub open spec fn attachments_view(v: Seq<VisionAttachment>) -> Seq<(int, Seq<u8>)> {
    v.map_values(|a: VisionAttachment| (attachment_kind(a), attachment_bytes(a)))
}

/// Reads the attachments of a JSON chat request: at most three, each valid
/// base64 of a known file type; any failure is a 400 with its reason.
pub fn parse_json_attachments(raw_attachments: &Vec<ChatAttachmentPayload>) -> (r: Result<
    Vec<VisionAttachment>,
    (u16, &'static str),
>)
    ensures
        raw_attachments@.len() > 3 ==> (r matches Err((code, m)) && code == 400 && m@
            == "Maximum limit of 3 attachments exceeded."@),
        raw_attachments@.len() <= 3 ==> match read_attachments(raw_attachments@, raw_attachments@.len() as int) {
            Ok(v) => r matches Ok(atts) && attachments_view(atts@) == v,
            Err(m) => r matches Err((code, e)) && code == 400 && e@ == m,
        },
{
    if raw_attachments.len() > 3 {
        return Err((400, "Maximum limit of 3 attachments exceeded."));
    }
    let mut out: Vec<VisionAttachment> = Vec::new();
    let mut i: usize = 0;
    assert(attachments_view(out@) =~= seq![]);
    while i < raw_attachments.len()
        invariant
            i <= raw_attachments@.len(),
            raw_attachments@.len() <= 3,
            out@.len() == i,
            read_attachments(raw_attachments@, i as int) == Ok::<Seq<(int, Seq<u8>)>, Seq<char>>(attachments_view(out@)),
        decreases raw_attachments.len() - i,
    {
        let att = &raw_attachments[i];
        let bytes = match decode_base64(att.bytes_base64.as_str()) {
            Some(b) => b,
            None => {
                proof {
                    lemma_read_error_sticks(raw_attachments@, i + 1, raw_attachments@.len() as int);
                }
                return Err((400, "Invalid base64 encoding in attachment payload."));
            },
        };
        proof {
            reveal_strlit("image");
            reveal_strlit("png");
            reveal_strlit("jpg");
            reveal_strlit("jpeg");
            reveal_strlit("pdf");
            reveal_strlit("chart");
        }
        let lower = to_lowercase_text(att.file_type.as_str());
        let l = lower.as_str();
        let ghost before = out@;
        if str_eq(l, "image") || str_eq(l, "png") || str_eq(l, "jpg") || str_eq(l, "jpeg") {
            out.push(VisionAttachment::Image(bytes));
        } else if str_eq(l, "pdf") {
            out.push(VisionAttachment::Pdf(bytes));
        } else if str_eq(l, "chart") {
            out.push(VisionAttachment::Chart(bytes));
        } else {
            proof {
                lemma_read_error_sticks(raw_attachments@, i + 1, raw_attachments@.len() as int);
            }
            return Err((400, "Unsupported attachment file_type."));
        }
        assert(attachments_view(out@) =~= attachments_view(before).push(
            (attachment_kind(out@[i as int]), attachment_bytes(out@[i as int])),
        ));
        i = i + 1;
    }
    Ok(out)
}

/// The refusal of a further multipart file once three are attached.
pub fn multipart_limit_error(attached: usize) -> (r: Option<(u16, &'static str)>)
    ensures
        attached >= 3 ==> (r matches Some((code, m)) && code == 400 && m@
            == "A maximum of 3 attachments are allowed per query."@),
        attached < 3 ==> r is None,
{
    if attached >= 3 {
        Some((400, "A maximum of 3 attachments are allowed per query."))
    } else {
        None
    }
}

/// Whether `pat` occurs in `s`.
pub open spec fn contains_text(s: Seq<char>, pat: Seq<char>) -> bool {
    crate::text::contains_seq(s, pat)
}

/// The kind of a multipart file by its content type (default
/// `application/octet-stream`): PDF if the type mentions `pdf`, else chart
/// if it mentions `chart`, else image.
pub open spec fn content_type_kind(content_type: Option<Seq<char>>) -> int {
    let ct = match content_type {
        Some(c) => c,
        None => "application/octet-stream"@,
    };
    if contains_text(ct, "pdf"@) {
        1
    } else if contains_text(ct, "chart"@) {
        2
    } else {
        0
    }
}

/// The attachment a multipart file becomes.
pub fn multipart_attachment(content_type: Option<&str>, bytes: Vec<u8>) -> (a: VisionAttachment)
    ensures
        attachment_kind(a) == content_type_kind(
            match content_type {
                Some(c) => Some(c@),
                None => None,
            },
        ),
        attachment_bytes(a) == bytes@,
{
    let ct = match content_type {
        Some(c) => chars_of(c),
        None => lit("application/octet-stream"),
    };
    if crate::text::contains(&ct, &lit("pdf")) {
        VisionAttachment::Pdf(bytes)
    } else if crate::text::contains(&ct, &lit("chart")) {
        VisionAttachment::Chart(bytes)
    } else {
        VisionAttachment::Image(bytes)
    }
}

/// The text with every leading occurrence of `p` removed
/// (`str::trim_start_matches`).
pub open spec fn strip_leading(s: Seq<char>, p: Seq<char>) -> Seq<char>
    decreases s.len(),
{
    if p.len() > 0 && starts_with(s, p) {
        strip_leading(s.skip(p.len() as int), p)
    } else {
        s
    }
}

/// The text with every trailing `c` removed (`str::trim_end_matches`).
pub open spec fn strip_trailing(s: Seq<char>, c: char) -> Seq<char>
    decreases s.len(),
{
    if s.len() > 0 && s.last() == c {
        strip_trailing(s.drop_last(), c)
    } else {
        s
    }
}

/// What a token of the orchestrator's stream is.
pub enum StreamToken {
    /// `[TOOL_CALL:<name>]`: the tool that ran.
    ToolCall(String),
    /// `[TOOL_RESULT:<json>]`: the tool's result as JSON text.
    ToolResult(String),
    /// Reply text for the user.
    Text,
    /// Another bracketed marker, not part of the reply.
    Marker,
}

pub open spec fn marker_payload(token: Seq<char>, prefix: Seq<char>) -> Seq<char> {
    strip_trailing(strip_leading(token, prefix), ']')
}

/// How a token is sorted.
pub open spec fn token_class(token: Seq<char>) -> (int, Seq<char>) {
    if starts_with(token, "[TOOL_CALL:"@) {
        (0, marker_payload(token, "[TOOL_CALL:"@))
    } else if starts_with(token, "[TOOL_RESULT:"@) {
        (1, marker_payload(token, "[TOOL_RESULT:"@))
    } else if !starts_with(token, "["@) {
        (2, Seq::empty())
    } else {
        (3, Seq::empty())
    }
}

fn strip_leading_exec(s: &Vec<char>, p: &Vec<char>) -> (r: Vec<char>)
    ensures
        r@ == strip_leading(s@, p@),
{
    let mut start: usize = 0;
    assert(s@.skip(0) =~= s@);
    if p.len() == 0 {
        return slice_chars(s, 0, s.len());
    }
    let mut cur = slice_chars(s, 0, s.len());
    while has_prefix(&cur, p)
        invariant
            p@.len() > 0,
            strip_leading(s@, p@) == strip_leading(cur@, p@),
        decreases cur@.len(),
    {
        cur = slice_chars(&cur, p.len(), cur.len());
        assert(cur@ =~= cur@);
    }
    cur
}

fn strip_trailing_exec(s: &Vec<char>, c: char) -> (r: Vec<char>)
    ensures
        r@ == strip_trailing(s@, c),
{
    let mut hi: usize = s.len();
    assert(s@.subrange(0, s.len() as int) =~= s@);
    while hi > 0 && s[hi - 1] == c
        invariant
            hi <= s.len(),
            strip_trailing(s@, c) == strip_trailing(s@.subrange(0, hi as int), c),
        decreases hi,
    {
        assert(s@.subrange(0, hi as int).drop_last() =~= s@.subrange(0, hi - 1));
        hi = hi - 1;
    }
    slice_chars(s, 0, hi)
}

/// Sorts a token of the orchestrator's stream.
pub fn classify_token(token: &str) -> (r: StreamToken)
    ensures
        match r {
            StreamToken::ToolCall(n) => token_class(token@) == (0int, n@),
            StreamToken::ToolResult(j) => token_class(token@) == (1int, j@),
            StreamToken::Text => token_class(token@).0 == 2,
            StreamToken::Marker => token_class(token@).0 == 3,
        },
{
    let t = chars_of(token);
    let call = lit("[TOOL_CALL:");
    let result = lit("[TOOL_RESULT:");
    if has_prefix(&t, &call) {
        let inner = strip_leading_exec(&t, &call);
        let name = strip_trailing_exec(&inner, ']');
        StreamToken::ToolCall(string_from_chars(name.as_slice()))
    } else if has_prefix(&t, &result) {
        let inner = strip_leading_exec(&t, &result);
        let json = strip_trailing_exec(&inner, ']');
        StreamToken::ToolResult(string_from_chars(json.as_slice()))
    } else if !has_prefix(&t, &lit("[")) {
        StreamToken::Text
    } else {
        StreamToken::Marker
    }
}

/// What a reply stream gave so far, as plain values: the reply text, the
/// last tool call announced, and the payloads of the tool results announced.
pub struct CollectedReply {
    pub reply: Seq<char>,
    pub tool_called: Option<Seq<char>>,
    pub tool_results: Seq<Seq<char>>,
}

/// Taking one token of the stream: a tool call replaces the one recorded, a
/// tool result is added, reply text is appended, other markers are skipped.
pub open spec fn collect_step(c: CollectedReply, token: Seq<char>) -> CollectedReply {
    let (kind, payload) = token_class(token);
    if kind == 0 {
        CollectedReply { tool_called: Some(payload), ..c }
    } else if kind == 1 {
        CollectedReply { tool_results: c.tool_results.push(payload), ..c }
    } else if kind == 2 {
        CollectedReply { reply: c.reply + token, ..c }
    } else {
        c
    }
}

/// What a whole stream of tokens gives, taken in order.
pub open spec fn collected(tokens: Seq<Seq<char>>) -> CollectedReply
    decreases tokens.len(),
{
    if tokens.len() == 0 {
        CollectedReply { reply: Seq::empty(), tool_called: None, tool_results: Seq::empty() }
    } else {
        collect_step(collected(tokens.drop_last()), tokens.last())
    }
}

/// Collects a reply stream token by token.
pub struct ReplyCollector {
    pub reply: String,
    pub tool_called: Option<String>,
    pub tool_results: Vec<String>,
}

impl ReplyCollector {
    pub open spec fn collected_view(&self) -> CollectedReply {
        CollectedReply {
            reply: self.reply@,
            tool_called: match self.tool_called {
                Some(t) => Some(t@),
                None => None,
            },
            tool_results: self.tool_results@.map_values(|j: String| j@),
        }
    }

    /// Nothing collected yet.
    pub fn new() -> (c: Self)
        ensures
            c.collected_view() == collected(Seq::empty()),
    {
        let c = ReplyCollector { reply: String::new(), tool_called: None, tool_results: Vec::new() };
        assert(c.collected_view().tool_results =~= Seq::<Seq<char>>::empty());
        c
    }

    /// Takes the next token of the stream.
    pub fn take(&mut self, token: &str)
        ensures
            final(self).collected_view() == collect_step(old(self).collected_view(), token@),
    {
        match classify_token(token) {
            StreamToken::ToolCall(name) => {
                self.tool_called = Some(name);
            },
            StreamToken::ToolResult(json) => {
                let ghost before = self.tool_results@.map_values(|j: String| j@);
                let ghost jv = json@;
                self.tool_results.push(json);
                assert(self.tool_results@.map_values(|j: String| j@) =~= before.push(jv));
            },
            StreamToken::Text => {
                self.reply.append(token);
            },
            StreamToken::Marker => {},
        }
    }
}

/// Collects a whole reply stream.
pub fn collect_reply(tokens: &Vec<String>) -> (c: ReplyCollector)
    ensures
        c.collected_view() == collected(tokens@.map_values(|t: String| t@)),
{
    let ghost tv = tokens@.map_values(|t: String| t@);
    let mut c = ReplyCollector::new();
    let mut i: usize = 0;
    assert(tv.take(0) =~= Seq::<Seq<char>>::empty());
    while i < tokens.len()
        invariant
            i <= tokens@.len(),
            tv == tokens@.map_values(|t: String| t@),
            c.collected_view() == collected(tv.take(i as int)),
        decreases tokens.len() - i,
    {
        c.take(tokens[i].as_str());
        assert(tv.take(i + 1).drop_last() =~= tv.take(i as int));
        assert(tv.take(i + 1).last() == tokens@[i as int]@);
        i = i + 1;
    }
    assert(tv.take(tokens@.len() as int) =~= tv);
    c
}

/// Newlines written as `\n`, so a token fits in one server-sent event.
pub open spec fn escape_newlines(s: Seq<char>) -> Seq<char>
    decreases s.len(),
{
    if s.len() == 0 {
        Seq::empty()
    } else {
        escape_newlines(s.drop_last()) + if s.last() == '\n' {
            seq!['\\', 'n']
        } else {
            seq![s.last()]
        }
    }
}

/// The data of the server-sent event that carries a token.
pub fn sse_data(token: &str) -> (r: String)
    ensures
        r@ == escape_newlines(token@),
{
    let t = chars_of(token);
    let mut out: Vec<char> = Vec::new();
    let mut i: usize = 0;
    while i < t.len()
        invariant
            i <= t@.len(),
            t@ == token@,
            out@ == escape_newlines(t@.take(i as int)),
        decreases t.len() - i,
    {
        assert(t@.take(i + 1).drop_last() =~= t@.take(i as int));
        let c = t[i];
        let ghost before = out@;
        if c == '\n' {
            out.push('\\');
            out.push('n');
            assert(out@ =~= before + seq!['\\', 'n']);
        } else {
            out.push(c);
            assert(out@ =~= before + seq![c]);
        }
        i = i + 1;
    }
    assert(t@.take(t@.len() as int) =~= t@);
    string_from_chars(out.as_slice())
}

} // verus!
