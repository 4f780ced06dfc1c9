//! The user's financial snapshot as it is handed to the language model.
use vstd::prelude::*;
use crate::text::{all_ws, chars_of, is_blank, join};
use crate::llm::tools::{join_strings, strings_view};

verus! {

/// The framing put around a non-blank user context.
pub open spec fn framed_context(context: Seq<char>) -> Seq<char> {
    if all_ws(context) {
        Seq::empty()
    } else {
        "\n\nHere is the current user's real financial data. Use these numbers when answering \u{2014} do not make up figures:\n"@
            + context + "\n"@
    }
}

/// Wraps the user's financial context for injection into the system prompt;
/// a blank context gives the empty string.
pub fn format_context_for_prompt(context: &str) -> (r: String)
    ensures
        r@ == framed_context(context@),
{
    let c = chars_of(context);
    if is_blank(&c) {
        return String::new();
    }
    let mut r = String::new();
    r.append("\n\nHere is the current user's real financial data. Use these numbers when answering \u{2014} do not make up figures:\n");
    r.append(context);
    r.append("\n");
    r
}

/// The snapshot text built from its metric lines: nothing when no metric
/// produced a line, else the lines between a header and a footer, one per
/// line.
pub open spec fn snapshot_text(lines: Seq<Seq<char>>) -> Seq<char> {
    if lines.len() == 0 {
        Seq::empty()
    } else {
        join(seq!["=== USER FINANCIAL SNAPSHOT ==="@] + lines + seq!["=== END SNAPSHOT ==="@], "\n"@)
    }
}

/// Assembles the user's financial snapshot from its metric lines.
pub fn assemble_snapshot(lines: &Vec<String>) -> (r: String)
    ensures
        r@ == snapshot_text(strings_view(lines@)),
{
    if lines.len() == 0 {
        return String::new();
    }
    let mut all: Vec<String> = Vec::new();
    all.push("=== USER FINANCIAL SNAPSHOT ===".to_string());
    let mut i: usize = 0;
    while i < lines.len()
        invariant
            i <= lines@.len(),
            all@.len() == i + 1,
            all@[0]@ == "=== USER FINANCIAL SNAPSHOT ==="@,
            forall|q: int| 0 <= q < i ==> #[trigger] all@[q + 1]@ == lines@[q]@,
        decreases lines.len() - i,
    {
        all.push(lines[i].clone());
        i = i + 1;
    }
    let ghost body = all@;
    all.push("=== END SNAPSHOT ===".to_string());
    let ghost target = seq!["=== USER FINANCIAL SNAPSHOT ==="@] + strings_view(lines@) + seq!["=== END SNAPSHOT ==="@];
    assert forall|k: int| 0 <= k < all@.len() implies #[trigger] strings_view(all@)[k] == target[k] by {
        if 1 <= k <= lines@.len() {
            assert(body[(k - 1) + 1]@ == lines@[k - 1]@);
            assert(all@[k] == body[k]);
        }
    }
    assert(strings_view(all@) =~= target);
    join_strings(&all, "\n")
}

/// The remaining-days part of the burn-rate line.
pub fn burn_days_text(days_until_exhaustion: i64) -> (r: String)
    ensures
        r@ == if days_until_exhaustion < 9999 {
            crate::text::signed_decimal(days_until_exhaustion as int) + "d left"@
        } else {
            "no budget set"@
        },
{
    if days_until_exhaustion < 9999 {
        let d = crate::text::i64_to_decimal(days_until_exhaustion);
        let mut r = crate::text::string_from_chars(d.as_slice());
        r.append("d left");
        r
    } else {
        "no budget set".to_string()
    }
}

} // verus!
