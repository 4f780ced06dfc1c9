//! Keyword scoring of retrieved chunks and the rendering of retrieved
//! chunks into the model's reference context.
use vstd::prelude::*;
use crate::rag::documents::{find_key, lookup, or_default, pairs_view, DocumentChunk};
use crate::text::{
    ascii_lower_seq, chars_of, decimal, split_whitespace, string_from_chars, to_ascii_lowercase, trim,
    trimmed, u64_to_decimal, words,
};
use crate::llm::tools::text_eq;

verus! {

/// Unicode lowercase of a text, as `str::to_lowercase` gives it.
pub uninterp spec fn lowercase(s: Seq<char>) -> Seq<char>;

/// `str::to_lowercase`.
#[verifier::external_body]
pub(crate) fn to_lowercase_text(s: &str) -> (r: String)
    ensures
        r@ == lowercase(s@),
{
    s.to_lowercase()
}

/// The texts with repeats dropped, each kept at its first occurrence.
pub open spec fn distinct(ws: Seq<Seq<char>>) -> Seq<Seq<char>>
    decreases ws.len(),
{
    if ws.len() == 0 {
        seq![]
    } else {
        let d = distinct(ws.drop_last());
        if d.contains(ws.last()) {
            d
        } else {
            d.push(ws.last())
        }
    }
}

/// The distinct lowercased words of a query.
pub open spec fn query_tokens(query: Seq<char>) -> Seq<Seq<char>> {
    distinct(words(query).map_values(|w: Seq<char>| lowercase(w)))
}

/// Two texts are equal up to ASCII case (`str::eq_ignore_ascii_case`).
pub open spec fn eq_ignore_ascii_case(a: Seq<char>, b: Seq<char>) -> bool {
    ascii_lower_seq(a) == ascii_lower_seq(b)
}

/// Some document word equals the token up to ASCII case.
pub open spec fn token_found(token: Seq<char>, doc_words: Seq<Seq<char>>) -> bool {
    exists|j: int| 0 <= j < doc_words.len() && eq_ignore_ascii_case(#[trigger] doc_words[j], token)
}

/// How many of the tokens some document word matches.
pub open spec fn found_count(tokens: Seq<Seq<char>>, doc_words: Seq<Seq<char>>) -> nat
    decreases tokens.len(),
{
    if tokens.len() == 0 {
        0
    } else {
        found_count(tokens.drop_last(), doc_words) + if token_found(tokens.last(), doc_words) {
            1nat
        } else {
            0nat
        }
    }
}

proof fn lemma_found_count_bound(tokens: Seq<Seq<char>>, doc_words: Seq<Seq<char>>)
    ensures
        found_count(tokens, doc_words) <= tokens.len(),
    decreases tokens.len(),
{
    if tokens.len() > 0 {
        lemma_found_count_bound(tokens.drop_last(), doc_words);
    }
}

fn contains_text(v: &Vec<Vec<char>>, t: &Vec<char>) -> (b: bool)
    ensures
        b == v@.map_values(|x: Vec<char>| x@).contains(t@),
{
    let ghost vv = v@.map_values(|x: Vec<char>| x@);
    let mut i: usize = 0;
    while i < v.len()
        invariant
            i <= v@.len(),
            vv == v@.map_values(|x: Vec<char>| x@),
            forall|q: int| 0 <= q < i ==> vv[q] != t@,
        decreases v.len() - i,
    {
        if text_eq(&v[i], t) {
            assert(vv[i as int] == t@);
            return true;
        }
        i = i + 1;
    }
    false
}

/// Keyword scorer of the hybrid retriever.
pub struct HybridScorer;

impl HybridScorer {
    /// How many distinct lowercased query words occur in the document (up to
    /// ASCII case), and how many distinct query words there are; the
    /// keyword score is their ratio, zero for a query without words.
    pub fn keyword_match_counts(query: &str, document_text: &str) -> (r: (usize, usize))
        ensures
            r.1 == query_tokens(query@).len(),
            r.0 == found_count(query_tokens(query@), words(document_text@)),
            r.0 <= r.1,
    {
        let qc = chars_of(query);
        let qwords = split_whitespace(&qc);
        let ghost lw = words(query@).map_values(|w: Seq<char>| lowercase(w));
        let mut tokens: Vec<Vec<char>> = Vec::new();
        let mut i: usize = 0;
        while i < qwords.len()
            invariant
                i <= qwords@.len(),
                qwords@.len() == words(query@).len(),
                forall|k: int| 0 <= k < qwords@.len() ==> #[trigger] qwords@[k]@ == words(query@)[k],
                lw == words(query@).map_values(|w: Seq<char>| lowercase(w)),
                tokens@.map_values(|x: Vec<char>| x@) == distinct(lw.take(i as int)),
            decreases qwords.len() - i,
        {
            let w = string_from_chars(qwords[i].as_slice());
            let lower = to_lowercase_text(w.as_str());
            let lc = chars_of(lower.as_str());
            assert(lw.take(i + 1).drop_last() =~= lw.take(i as int));
            assert(lw.take(i + 1).last() == lc@);
            if !contains_text(&tokens, &lc) {
                let ghost t0 = tokens@;
                tokens.push(lc);
                assert(tokens@.map_values(|x: Vec<char>| x@) =~= t0.map_values(|x: Vec<char>| x@).push(lc@));
            }
            i = i + 1;
        }
        assert(lw.take(qwords@.len() as int) =~= lw);
        let ghost tv = tokens@.map_values(|x: Vec<char>| x@);
        let dc = chars_of(document_text);
        let dwords = split_whitespace(&dc);
        let ghost dw = words(document_text@);
        let mut folded: Vec<Vec<char>> = Vec::new();
        let mut j: usize = 0;
        while j < dwords.len()
            invariant
                j <= dwords@.len(),
                dwords@.len() == dw.len(),
                forall|k: int| 0 <= k < dwords@.len() ==> #[trigger] dwords@[k]@ == dw[k],
                folded@.len() == j,
                forall|k: int| 0 <= k < j ==> #[trigger] folded@[k]@ == ascii_lower_seq(dw[k]),
            decreases dwords.len() - j,
        {
            folded.push(to_ascii_lowercase(&dwords[j]));
            j = j + 1;
        }
        let mut matched: usize = 0;
        let mut t: usize = 0;
        while t < tokens.len()
            invariant
                t <= tokens@.len(),
                tv == tokens@.map_values(|x: Vec<char>| x@),
                folded@.len() == dw.len(),
                forall|k: int| 0 <= k < dw.len() ==> #[trigger] folded@[k]@ == ascii_lower_seq(dw[k]),
                matched == found_count(tv.take(t as int), dw),
                matched <= t,
            decreases tokens.len() - t,
        {
            let tok = to_ascii_lowercase(&tokens[t]);
            assert(tokens@[t as int]@ == tv[t as int]);
            let mut found = false;
            let mut k: usize = 0;
            while k < folded.len()
                invariant_except_break
                    k <= folded@.len(),
                    !found,
                    t < tokens@.len(),
                    tv == tokens@.map_values(|x: Vec<char>| x@),
                    folded@.len() == dw.len(),
                    forall|q: int| 0 <= q < dw.len() ==> #[trigger] folded@[q]@ == ascii_lower_seq(dw[q]),
                    tok@ == ascii_lower_seq(tv[t as int]),
                    forall|q: int| 0 <= q < k ==> !eq_ignore_ascii_case(#[trigger] dw[q], tv[t as int]),
                ensures
                    found ==> token_found(tv[t as int], dw),
                    !found ==> !token_found(tv[t as int], dw),
                decreases folded.len() - k,
            {
                if text_eq(&folded[k], &tok) {
                    assert(eq_ignore_ascii_case(dw[k as int], tv[t as int]));
                    found = true;
                    break;
                }
                k = k + 1;
            }
            assert(tv.take(t + 1).drop_last() =~= tv.take(t as int));
            assert(tv.take(t + 1).last() == tv[t as int]);
            if found {
                matched = matched + 1;
            }
            t = t + 1;
        }
        assert(tv.take(tokens@.len() as int) =~= tv);
        (matched, tokens.len())
    }
}

/// The reference context shown when nothing was retrieved.
pub open spec fn no_context_text() -> Seq<char> {
    "No background reference facts found matching this query scenario."@
}

/// One retrieved chunk in the reference context; `score` is its match
/// confidence already written with two decimals.
pub open spec fn reference_node(k: int, chunk: DocumentChunk, score: Seq<char>) -> Seq<char> {
    "[Reference Node "@ + decimal((k + 1) as nat) + " | Source: "@ + or_default(
        lookup(pairs_view(chunk.metadata@), "source_file"@),
        "unknown"@,
    ) + " | Match Confidence: "@ + score + "]\nText: "@ + trim(chunk.text@) + "\n\n"@
}

/// The nodes of the first `n` matches, one after another.
pub open spec fn reference_nodes(matches: Seq<(DocumentChunk, String)>, n: int) -> Seq<char>
    decreases n,
{
    if n <= 0 {
        Seq::empty()
    } else {
        reference_nodes(matches, n - 1) + reference_node(n - 1, matches[n - 1].0, matches[n - 1].1@)
    }
}

pub open spec fn context_block(matches: Seq<(DocumentChunk, String)>) -> Seq<char> {
    if matches.len() == 0 {
        no_context_text()
    } else {
        "=== EMBEDDED KNOWLEDGE BACKGROUND CONTEXT ===\n"@ + reference_nodes(matches, matches.len() as int)
            + "============================================="@
    }
}

/// Renders retrieved chunks as the model's reference context.
pub struct ContextFormatter;

impl ContextFormatter {
    /// The reference block for the matches, in order; each match pairs a
    /// chunk with its confidence written with two decimals.
    pub fn format_context(matches: &Vec<(DocumentChunk, String)>) -> (r: String)
        ensures
            r@ == context_block(matches@),
    {
        if matches.len() == 0 {
            return "No background reference facts found matching this query scenario.".to_string();
        }
        let mut block = String::new();
        block.append("=== EMBEDDED KNOWLEDGE BACKGROUND CONTEXT ===\n");
        let mut i: usize = 0;
        while i < matches.len()
            invariant
                i <= matches@.len(),
                block@ == "=== EMBEDDED KNOWLEDGE BACKGROUND CONTEXT ===\n"@ + reference_nodes(matches@, i as int),
            decreases matches.len() - i,
        {
            let chunk = &matches[i].0;
            let source = match find_key(&chunk.metadata, "source_file") {
                Some(j) => chunk.metadata[j].1.clone(),
                None => "unknown".to_string(),
            };
            let n = u64_to_decimal((i + 1) as u64);
            let text = trimmed(&chars_of(chunk.text.as_str()));
            block.append("[Reference Node ");
            block.append(string_from_chars(n.as_slice()).as_str());
            block.append(" | Source: ");
            block.append(source.as_str());
            block.append(" | Match Confidence: ");
            block.append(matches[i].1.as_str());
            block.append("]\nText: ");
            block.append(string_from_chars(text.as_slice()).as_str());
            block.append("\n\n");
            i = i + 1;
        }
        block.append("=============================================");
        block
    }
}

} // verus!
