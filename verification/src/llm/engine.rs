//! The decisions of local text generation: prompt framing and truncation,
//! prefill tiling, the repetition-penalty window, stop tokens, and the
//! incremental decoding of generated tokens into text.
use vstd::prelude::*;
use crate::errors::AppError;
use crate::text::{chars_of, contains, lit, slice_chars, string_from_chars, trim, trimmed, utf8_len};

verus! {

/// The prompt in ChatML form: a prompt that already has ChatML turns is
/// kept, any other is trimmed and wrapped as the user's turn after a short
/// system turn.
pub open spec fn chatml_prompt(prompt: Seq<char>) -> Seq<char> {
    if crate::text::contains_seq(prompt, "<|im_start|>"@) {
        prompt
    } else {
        "<|im_start|>system\nYou are a helpful, concise AI assistant.<|im_end|>\n<|im_start|>user\n"@ + trim(prompt)
            + "<|im_end|>\n<|im_start|>assistant\n"@
    }
}

/// Frames a prompt in ChatML unless it already is.
pub fn format_chatml_prompt(prompt: &str) -> (r: String)
    ensures
        r@ == chatml_prompt(prompt@),
{
    let p = chars_of(prompt);
    if contains(&p, &lit("<|im_start|>")) {
        return prompt.to_string();
    }
    let t = trimmed(&p);
    let mut r = String::new();
    r.append("<|im_start|>system\nYou are a helpful, concise AI assistant.<|im_end|>\n<|im_start|>user\n");
    r.append(string_from_chars(t.as_slice()).as_str());
    r.append("<|im_end|>\n<|im_start|>assistant\n");
    r
}

/// Most prompt tokens fed to the model; older ones are dropped.
pub const MAX_PROMPT_TOKENS: usize = 4096;

/// The prompt tokens the model reads: the last 4096 of them; an empty
/// prompt is refused.
pub fn truncate_prompt_tokens(tokens: &Vec<u32>) -> (r: Result<Vec<u32>, AppError>)
    ensures
        tokens@.len() == 0 ==> (r matches Err(AppError::InferenceError(m)) && m@ == "Prompt cannot be empty"@),
        tokens@.len() > 0 ==> (r matches Ok(t) && t@ == if tokens@.len() > MAX_PROMPT_TOKENS {
            tokens@.skip(tokens@.len() - MAX_PROMPT_TOKENS)
        } else {
            tokens@
        }),
{
    if tokens.len() == 0 {
        return Err(AppError::InferenceError("Prompt cannot be empty".to_string()));
    }
    let start = if tokens.len() > MAX_PROMPT_TOKENS {
        tokens.len() - MAX_PROMPT_TOKENS
    } else {
        0
    };
    let mut out: Vec<u32> = Vec::new();
    let mut i = start;
    while i < tokens.len()
        invariant
            start <= i <= tokens@.len(),
            out@ == tokens@.subrange(start as int, i as int),
        decreases tokens.len() - i,
    {
        out.push(tokens[i]);
        i = i + 1;
    }
    assert(tokens@.subrange(start as int, tokens@.len() as int) =~= tokens@.skip(start as int));
    Ok(out)
}

/// Prompt tokens fed to the model per forward pass.
pub const PREFILL_TILE: usize = 1024;

/// The prefill passes from `offset` on: tiles of 1024 tokens, the last one
/// shorter, as (offset, length) pairs.
pub open spec fn tiles_from(offset: int, total: int) -> Seq<(int, int)>
    decreases total - offset,
{
    if offset >= total {
        seq![]
    } else {
        let len = if total - offset < PREFILL_TILE {
            total - offset
        } else {
            PREFILL_TILE as int
        };
        seq![(offset, len)] + tiles_from(offset + len, total)
    }
}

pub open spec fn tiles_view(r: Seq<(usize, usize)>) -> Seq<(int, int)> {
    r.map_values(|t: (usize, usize)| (t.0 as int, t.1 as int))
}

/// The prefill passes over `total` prompt tokens.
pub fn prefill_tiles(total: usize) -> (r: Vec<(usize, usize)>)
    ensures
        tiles_view(r@) == tiles_from(0, total as int),
{
    let mut r: Vec<(usize, usize)> = Vec::new();
    let mut offset: usize = 0;
    while offset < total
        invariant
            offset <= total,
            tiles_view(r@) + tiles_from(offset as int, total as int) == tiles_from(0, total as int),
        decreases total - offset,
    {
        let len = if total - offset < PREFILL_TILE {
            total - offset
        } else {
            PREFILL_TILE
        };
        let ghost before = tiles_view(r@);
        r.push((offset, len));
        assert(tiles_view(r@) =~= before.push((offset as int, len as int)));
        assert(tiles_from(offset as int, total as int) == seq![(offset as int, len as int)] + tiles_from(
            offset + len,
            total as int,
        ));
        assert(before + tiles_from(offset as int, total as int) =~= before.push((offset as int, len as int))
            + tiles_from(offset + len, total as int));
        offset = offset + len;
    }
    assert(tiles_view(r@) + tiles_from(offset as int, total as int) =~= tiles_view(r@));
    r
}

/// Generated tokens the repetition penalty looks back on.
pub const PENALTY_WINDOW: usize = 64;

/// The window after one more generated token: the oldest token leaves a
/// full window.
pub open spec fn window_push(w: Seq<u32>, t: u32) -> Seq<u32> {
    if w.len() >= PENALTY_WINDOW {
        w.drop_first().push(t)
    } else {
        w.push(t)
    }
}

/// The window after generating `tokens`, starting empty.
pub open spec fn window_after(tokens: Seq<u32>) -> Seq<u32>
    decreases tokens.len(),
{
    if tokens.len() == 0 {
        seq![]
    } else {
        window_push(window_after(tokens.drop_last()), tokens.last())
    }
}

/// Records a generated token in the repetition window.
pub fn push_recent(recent: &mut Vec<u32>, token: u32)
    ensures
        final(recent)@ == window_push(old(recent)@, token),
{
    if recent.len() >= PENALTY_WINDOW {
        recent.remove(0);
    }
    recent.push(token);
}

/// The repetition window always holds exactly the last (up to) 64
/// generated tokens, in order.
pub proof fn law_window_holds_recent_tokens(tokens: Seq<u32>)
    ensures
        window_after(tokens) == tokens.skip(
            if tokens.len() > PENALTY_WINDOW {
                tokens.len() - PENALTY_WINDOW
            } else {
                0
            },
        ),
    decreases tokens.len(),
{
    if tokens.len() > 0 {
        let init = tokens.drop_last();
        law_window_holds_recent_tokens(init);
        let s = if init.len() > PENALTY_WINDOW {
            init.len() - PENALTY_WINDOW
        } else {
            0
        };
        if init.len() >= PENALTY_WINDOW {
            assert(init.skip(s).drop_first().push(tokens.last()) =~= tokens.skip(tokens.len() - PENALTY_WINDOW));
        } else {
            assert(init.skip(s).push(tokens.last()) =~= tokens.skip(0));
        }
    } else {
        assert(tokens.skip(0) =~= tokens);
    }
}

/// Whether a sampled token ends the generation.
pub fn is_stop_token(stop_token_ids: &Vec<u32>, token: u32) -> (b: bool)
    ensures
        b == stop_token_ids@.contains(token),
{
    let mut i: usize = 0;
    while i < stop_token_ids.len()
        invariant
            i <= stop_token_ids@.len(),
            forall|q: int| 0 <= q < i ==> stop_token_ids@[q] != token,
        decreases stop_token_ids.len() - i,
    {
        if stop_token_ids[i] == token {
            assert(stop_token_ids@[i as int] == token);
            return true;
        }
        i = i + 1;
    }
    false
}

/// Number of UTF-8 bytes of one character.
pub open spec fn char_width(c: char) -> nat {
    if (c as u32) <= 0x7F {
        1
    } else if (c as u32) <= 0x7FF {
        2
    } else if (c as u32) <= 0xFFFF {
        3
    } else {
        4
    }
}

proof fn lemma_scalar_width(c: char)
    ensures
        vstd::utf8::encode_scalar(c as u32).len() == char_width(c),
{
    broadcast use vstd::utf8::char_is_scalar;

    assert(vstd::utf8::is_scalar(c as u32));
}

proof fn lemma_encode_push(a: Seq<char>, c: char)
    ensures
        vstd::utf8::encode_utf8(a.push(c)) == vstd::utf8::encode_utf8(a) + vstd::utf8::encode_scalar(c as u32),
    decreases a.len(),
{
    let ap = a.push(c);
    let s = vstd::utf8::encode_scalar(c as u32);
    assert(ap.len() > 0);
    assert(vstd::utf8::encode_utf8(ap) == vstd::utf8::encode_scalar(ap[0] as u32) + vstd::utf8::encode_utf8(
        ap.drop_first(),
    ));
    if a.len() == 0 {
        assert(ap.drop_first() =~= Seq::<char>::empty());
        assert(vstd::utf8::encode_utf8(Seq::<char>::empty()) =~= Seq::<u8>::empty());
        assert(ap[0] == c);
        assert(s + Seq::<u8>::empty() =~= s);
        assert(Seq::<u8>::empty() + s =~= s);
        assert(vstd::utf8::encode_utf8(a) =~= Seq::<u8>::empty());
    } else {
        lemma_encode_push(a.drop_first(), c);
        assert(ap.drop_first() =~= a.drop_first().push(c));
        assert(ap[0] == a[0]);
        let e0 = vstd::utf8::encode_scalar(a[0] as u32);
        let r = vstd::utf8::encode_utf8(a.drop_first());
        assert(vstd::utf8::encode_utf8(a) == e0 + r);
        assert(e0 + (r + s) =~= (e0 + r) + s);
    }
}

fn width_of(c: char) -> (w: usize)
    ensures
        w == char_width(c),
{
    let u = c as u32;
    if u <= 0x7F {
        1
    } else if u <= 0x7FF {
        2
    } else if u <= 0xFFFF {
        3
    } else {
        4
    }
}

/// The character position at which `bytes` bytes of UTF-8 end, when that
/// is a character boundary.
fn char_index_at_byte(text: &Vec<char>, bytes: usize) -> (r: Option<usize>)
    ensures
        match r {
            Some(k) => k <= text@.len() && utf8_len(text@.take(k as int)) == bytes,
            None => forall|k: int| 0 <= k <= text@.len() ==> utf8_len(#[trigger] text@.take(k)) != bytes,
        },
{
    let mut k: usize = 0;
    let mut acc: u128 = 0;
    assert(text@.take(0) =~= Seq::<char>::empty());
    while k < text.len() && acc < bytes as u128
        invariant
            k <= text@.len(),
            acc == utf8_len(text@.take(k as int)),
            acc <= bytes + 4,
            forall|j: int| 0 <= j < k ==> utf8_len(#[trigger] text@.take(j)) < bytes,
        decreases text.len() - k,
    {
        proof {
            lemma_encode_push(text@.take(k as int), text@[k as int]);
            lemma_scalar_width(text@[k as int]);
            assert(text@.take(k + 1) =~= text@.take(k as int).push(text@[k as int]));
        }
        let w = width_of(text[k]);
        acc = acc + w as u128;
        k = k + 1;
    }
    if acc == bytes as u128 {
        return Some(k);
    }
    proof {
        assert forall|j: int| 0 <= j <= text@.len() implies utf8_len(#[trigger] text@.take(j)) != bytes by {
            if j > k {
                lemma_utf8_len_monotone(text@, k as int, j);
            }
        }
    }
    None
}

proof fn lemma_utf8_len_monotone(s: Seq<char>, i: int, j: int)
    requires
        0 <= i < j <= s.len(),
    ensures
        utf8_len(s.take(i)) < utf8_len(s.take(j)),
    decreases j - i,
{
    lemma_encode_push(s.take(j - 1), s[j - 1]);
    lemma_scalar_width(s[j - 1]);
    assert(s.take(j) =~= s.take(j - 1).push(s[j - 1]));
    if i < j - 1 {
        lemma_utf8_len_monotone(s, i, j - 1);
    }
}

/// Incremental decoding of generated tokens: the tokens so far, where the
/// text already handed out starts, and where it ends.
pub struct DecodeProgress {
    pub tokens: Vec<u32>,
    pub prev_index: usize,
    pub current_index: usize,
}

/// The text to hand out when the decoding of the pending tokens grew from
/// `prev` to `text`: the new part, unless the text ends in an incomplete
/// character (U+FFFD).
pub open spec fn fresh_text(prev: Seq<char>, text: Seq<char>) -> Option<Seq<char>> {
    if utf8_len(text) > utf8_len(prev) && !(text.len() > 0 && text.last() == '\u{FFFD}') {
        Some(text.skip(choose|k: int| 0 <= k <= text.len() && utf8_len(text.take(k)) == utf8_len(prev)))
    } else {
        None
    }
}

/// The text after the first `bytes` bytes is well defined.
pub open spec fn splits_at(text: Seq<char>, bytes: nat) -> bool {
    exists|k: int| 0 <= k <= text.len() && utf8_len(#[trigger] text.take(k)) == bytes
}

impl DecodeProgress {
    pub fn new() -> (s: Self)
        ensures
            s.tokens@.len() == 0,
            s.prev_index == 0,
            s.current_index == 0,
    {
        DecodeProgress { tokens: Vec::new(), prev_index: 0, current_index: 0 }
    }

    /// The tokens whose decoding was handed out last (none before the first
    /// token).
    pub fn handed_out_range(&self) -> (r: Option<(usize, usize)>)
        ensures
            self.tokens@.len() == 0 ==> r is None,
            self.tokens@.len() > 0 ==> r == Some((self.prev_index, self.current_index)),
    {
        if self.tokens.len() == 0 {
            None
        } else {
            Some((self.prev_index, self.current_index))
        }
    }

    /// Records a generated token; the pending tokens are those from
    /// `prev_index` on.
    pub fn push_token(&mut self, token: u32)
        ensures
            final(self).tokens@ == old(self).tokens@.push(token),
            final(self).prev_index == old(self).prev_index,
            final(self).current_index == old(self).current_index,
    {
        self.tokens.push(token);
    }

    /// Given the decoding of the handed-out tokens (`prev_text`) and of all
    /// pending tokens (`text`), hands out the new text, if any, and moves
    /// the window past it.
    pub fn next_text(&mut self, prev_text: &str, text: &str) -> (r: Option<String>)
        requires
            splits_at(text@, utf8_len(prev_text@)),
        ensures
            match fresh_text(prev_text@, text@) {
                Some(t) => r matches Some(s) && s@ == t && final(self).prev_index == old(self).current_index
                    && final(self).current_index == old(self).tokens@.len(),
                None => r is None && final(self).prev_index == old(self).prev_index && final(self).current_index
                    == old(self).current_index,
            },
            final(self).tokens@ == old(self).tokens@,
    {
        match Self::fresh(prev_text, text) {
            Some(s) => {
                self.prev_index = self.current_index;
                self.current_index = self.tokens.len();
                Some(s)
            },
            None => None,
        }
    }

    /// The text not yet handed out when generation ends: what the decoding
    /// of the pending tokens adds to that of the handed-out ones.
    pub fn rest_text(&self, prev_text: &str, text: &str) -> (r: Option<String>)
        requires
            splits_at(text@, utf8_len(prev_text@)),
        ensures
            utf8_len(text@) > utf8_len(prev_text@) ==> (r matches Some(s) && s@ == text@.skip(
                choose|k: int| 0 <= k <= text@.len() && utf8_len(text@.take(k)) == utf8_len(prev_text@),
            )),
            utf8_len(text@) <= utf8_len(prev_text@) ==> r is None,
    {
        let p = crate::text::byte_len(prev_text);
        let t = crate::text::byte_len(text);
        if t > p {
            let tc = chars_of(text);
            match char_index_at_byte(&tc, p) {
                Some(k) => {
                    proof {
                        lemma_split_unique(text@, utf8_len(prev_text@), k as int);
                    }
                    let s = slice_chars(&tc, k, tc.len());
                    assert(s@ =~= text@.skip(k as int));
                    Some(string_from_chars(s.as_slice()))
                },
                None => None,
            }
        } else {
            None
        }
    }

    fn fresh(prev_text: &str, text: &str) -> (r: Option<String>)
        requires
            splits_at(text@, utf8_len(prev_text@)),
        ensures
            match fresh_text(prev_text@, text@) {
                Some(t) => r matches Some(s) && s@ == t,
                None => r is None,
            },
    {
        let p = crate::text::byte_len(prev_text);
        let t = crate::text::byte_len(text);
        let tc = chars_of(text);
        if t > p && !(tc.len() > 0 && tc[tc.len() - 1] == '\u{FFFD}') {
            match char_index_at_byte(&tc, p) {
                Some(k) => {
                    proof {
                        lemma_split_unique(text@, utf8_len(prev_text@), k as int);
                    }
                    let s = slice_chars(&tc, k, tc.len());
                    assert(s@ =~= text@.skip(k as int));
                    Some(string_from_chars(s.as_slice()))
                },
                None => None,
            }
        } else {
            None
        }
    }
}

/// The character position of a byte offset is unique.
proof fn lemma_split_unique(text: Seq<char>, bytes: nat, k: int)
    requires
        0 <= k <= text.len(),
        utf8_len(text.take(k)) == bytes,
    ensures
        (choose|j: int| 0 <= j <= text.len() && utf8_len(text.take(j)) == bytes) == k,
{
    let j = choose|j: int| 0 <= j <= text.len() && utf8_len(text.take(j)) == bytes;
    if j < k {
        lemma_utf8_len_monotone(text, j, k);
    } else if k < j {
        lemma_utf8_len_monotone(text, k, j);
    }
}


#[verifier::external_type_specification]
#[verifier::external_body]
pub struct ExTokenizer(tokenizers::Tokenizer);

/// The text `tokenizers::Tokenizer::decode` gives for the ids with special
/// tokens skipped; `None` where it reports an error. Decoding reads only the
/// tokenizer and the ids.
pub uninterp spec fn tokenizer_decoding(tokenizer: tokenizers::Tokenizer, ids: Seq<u32>) -> Option<Seq<char>>;

/// `tokenizers::Tokenizer::decode` with special tokens skipped, its error's
/// `Display` text (not stated) passed on.
#[verifier::external_body]
fn decode_ids(tokenizer: &tokenizers::Tokenizer, ids: &[u32]) -> (r: Result<String, String>)
    ensures
        match tokenizer_decoding(*tokenizer, ids@) {
            Some(t) => r matches Ok(s) && s@ == t,
            None => r is Err,
        },
{
    tokenizer.decode(ids, true).map_err(|e| e.to_string())
}

/// What the stream hands out when the decoding of the handed-out tokens is
/// `prev` and that of all pending tokens is `text`: the new part, unless it
/// does not extend `prev` at a character boundary or ends in an incomplete
/// character.
pub open spec fn piece_after(prev: Seq<char>, text: Seq<char>) -> Option<Seq<char>> {
    if splits_at(text, utf8_len(prev)) {
        fresh_text(prev, text)
    } else {
        None
    }
}

/// What the stream hands out when generation ends, for the same two
/// decodings: the part of `text` beyond `prev`, if it extends `prev` at a
/// character boundary and is longer.
pub open spec fn rest_after(prev: Seq<char>, text: Seq<char>) -> Option<Seq<char>> {
    if splits_at(text, utf8_len(prev)) && utf8_len(text) > utf8_len(prev) {
        Some(text.skip(choose|k: int| 0 <= k <= text.len() && utf8_len(text.take(k)) == utf8_len(prev)))
    } else {
        None
    }
}

/// The tokens from `from` up to `to`.
fn token_range(tokens: &Vec<u32>, from: usize, to: usize) -> (r: Vec<u32>)
    requires
        from <= to <= tokens@.len(),
    ensures
        r@ == tokens@.subrange(from as int, to as int),
{
    let mut r: Vec<u32> = Vec::new();
    let mut i: usize = from;
    while i < to
        invariant
            from <= i <= to,
            to <= tokens@.len(),
            r@ == tokens@.subrange(from as int, i as int),
        decreases to - i,
    {
        r.push(tokens[i]);
        i = i + 1;
        assert(r@ =~= tokens@.subrange(from as int, i as int));
    }
    r
}

/// Turns generated tokens into text as they come, with a tokenizer.
pub struct TokenOutputStream {
    tokenizer: tokenizers::Tokenizer,
    progress: DecodeProgress,
}

impl TokenOutputStream {
    /// The window lies within the tokens generated so far.
    pub closed spec fn wf(&self) -> bool {
        self.progress.prev_index <= self.progress.current_index <= self.progress.tokens@.len()
    }

    /// The tokens generated so far.
    pub closed spec fn generated(&self) -> Seq<u32> {
        self.progress.tokens@
    }

    /// Where the text not yet handed out starts and ends, in tokens.
    pub closed spec fn window(&self) -> (int, int) {
        (self.progress.prev_index as int, self.progress.current_index as int)
    }

    /// The decoding of the tokens handed out last: empty before the first
    /// token, else the tokenizer's decoding of the window.
    pub open spec fn handed_decoding(&self) -> Option<Seq<char>> {
        if self.generated().len() == 0 {
            Some(Seq::empty())
        } else {
            tokenizer_decoding(self.tokenizer(), self.generated().subrange(self.window().0, self.window().1))
        }
    }

    /// The decoding of the pending tokens of `tokens`: those from the start
    /// of the window on.
    pub open spec fn pending_decoding_of(&self, tokens: Seq<u32>) -> Option<Seq<char>> {
        tokenizer_decoding(self.tokenizer(), tokens.subrange(self.window().0, tokens.len() as int))
    }

    /// The tokenizer the text is decoded with.
    pub closed spec fn tokenizer(&self) -> tokenizers::Tokenizer {
        self.tokenizer
    }

    pub fn new(tokenizer: tokenizers::Tokenizer) -> (d: Self)
        ensures
            d.tokenizer() == tokenizer,
            d.wf(),
            d.generated().len() == 0,
            d.window() == (0int, 0int),
    {
        TokenOutputStream { tokenizer, progress: DecodeProgress::new() }
    }

    /// The decoding of the handed-out tokens (empty before the first token).
    fn handed_out_text(&self) -> (r: Result<String, AppError>)
        requires
            self.wf(),
        ensures
            match self.handed_decoding() {
                Some(t) => r matches Ok(s) && s@ == t,
                None => r matches Err(e) && e is InferenceError,
            },
    {
        if self.progress.tokens.len() == 0 {
            return Ok(String::new());
        }
        let ids = token_range(&self.progress.tokens, self.progress.prev_index, self.progress.current_index);
        match decode_ids(&self.tokenizer, ids.as_slice()) {
            Ok(t) => Ok(t),
            Err(m) => Err(AppError::InferenceError(m)),
        }
    }

    /// The decoding of the pending tokens, from the start of the window on.
    fn pending_text(&self) -> (r: Result<String, AppError>)
        requires
            self.wf(),
        ensures
            match self.pending_decoding_of(self.generated()) {
                Some(t) => r matches Ok(s) && s@ == t,
                None => r matches Err(e) && e is InferenceError,
            },
    {
        let ids = token_range(&self.progress.tokens, self.progress.prev_index, self.progress.tokens.len());
        match decode_ids(&self.tokenizer, ids.as_slice()) {
            Ok(t) => Ok(t),
            Err(m) => Err(AppError::InferenceError(m)),
        }
    }

    /// Records a generated token and hands out the text it completes, if
    /// any: the decoding of the pending tokens beyond that of the tokens
    /// handed out, unless it ends in an incomplete character or does not
    /// extend it at a character boundary. A failed decoding is an inference
    /// error; the token is recorded unless the first decoding failed.
    pub fn next_token(&mut self, token: u32) -> (r: Result<Option<String>, AppError>)
        requires
            old(self).wf(),
        ensures
            final(self).wf(),
            final(self).tokenizer() == old(self).tokenizer(),
            r matches Err(e) ==> e is InferenceError,
            match old(self).handed_decoding() {
                None => r is Err && final(self).generated() == old(self).generated() && final(self).window()
                    == old(self).window(),
                Some(prev) => {
                    &&& final(self).generated() == old(self).generated().push(token)
                    &&& match old(self).pending_decoding_of(old(self).generated().push(token)) {
                        None => r is Err && final(self).window() == old(self).window(),
                        Some(text) => match piece_after(prev, text) {
                            Some(t) => r matches Ok(Some(s)) && s@ == t && final(self).window() == (
                                old(self).window().1,
                                (old(self).generated().len() + 1) as int,
                            ),
                            None => r matches Ok(None) && final(self).window() == old(self).window(),
                        },
                    }
                },
            },
    {
        let prev_text = match self.handed_out_text() {
            Ok(t) => t,
            Err(e) => return Err(e),
        };
        self.progress.push_token(token);
        let text = match self.pending_text() {
            Ok(t) => t,
            Err(e) => return Err(e),
        };
        let p = crate::text::byte_len(prev_text.as_str());
        let tc = chars_of(text.as_str());
        if char_index_at_byte(&tc, p).is_none() {
            return Ok(None);
        }
        Ok(self.progress.next_text(prev_text.as_str(), text.as_str()))
    }

    /// The text not yet handed out when generation ends, if any.
    pub fn decode_rest(&self) -> (r: Result<Option<String>, AppError>)
        requires
            self.wf(),
        ensures
            r matches Err(e) ==> e is InferenceError,
            match self.handed_decoding() {
                None => r is Err,
                Some(prev) => match self.pending_decoding_of(self.generated()) {
                    None => r is Err,
                    Some(text) => match rest_after(prev, text) {
                        Some(t) => r matches Ok(Some(s)) && s@ == t,
                        None => r matches Ok(None),
                    },
                },
            },
            r matches Ok(Some(s)) ==> s@.len() > 0,
    {
        let prev_text = match self.handed_out_text() {
            Ok(t) => t,
            Err(e) => return Err(e),
        };
        let text = match self.pending_text() {
            Ok(t) => t,
            Err(e) => return Err(e),
        };
        let p = crate::text::byte_len(prev_text.as_str());
        let tc = chars_of(text.as_str());
        if char_index_at_byte(&tc, p).is_none() {
            return Ok(None);
        }
        let rest = self.progress.rest_text(prev_text.as_str(), text.as_str());
        proof {
            if rest is Some {
                let s = rest->0;
                let k = choose|k: int| 0 <= k <= text@.len() && utf8_len(text@.take(k)) == utf8_len(prev_text@);
                if s@.len() == 0 {
                    assert(text@.take(k) =~= text@);
                }
            }
        }
        Ok(rest)
    }
}

} // verus!
