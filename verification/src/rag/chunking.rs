//! Sliding-window chunking of documents into overlapping word windows.
use vstd::prelude::*;
use crate::text::{all_ws, chars_of, is_blank, slice_chars, string_from_chars};
use crate::rag::errors::RagError;

verus! {

/// Word spans of a text: maximal runs of characters other than the ASCII
/// space, as `(start, end)` character positions, read left to right.
pub open spec fn spans(s: Seq<char>) -> Seq<(int, int)>
    decreases s.len(),
{
    if s.len() == 0 {
        seq![]
    } else {
        let init = s.drop_last();
        let i = s.len() - 1;
        let w = spans(init);
        if s.last() == ' ' {
            w
        } else if init.len() == 0 || init.last() == ' ' {
            w.push((i, i + 1))
        } else {
            w.update(w.len() - 1, (w.last().0, i + 1))
        }
    }
}

/// Spans are non-empty, in bounds, strictly ordered, separated by spaces,
/// and hold no space themselves.
pub open spec fn spans_wf(s: Seq<char>, sp: Seq<(int, int)>) -> bool {
    &&& forall|k: int| 0 <= k < sp.len() ==> 0 <= #[trigger] sp[k].0 < sp[k].1 <= s.len()
    &&& forall|k: int, l: int| 0 <= k < l < sp.len() ==> #[trigger] sp[k].1 < #[trigger] sp[l].0
    &&& forall|k: int, j: int| 0 <= k < sp.len() && sp[k].0 <= j < sp[k].1 ==> #[trigger] s[j]
        != ' ' && #[trigger] sp[k].0 == sp[k].0
}

proof fn lemma_spans_wf(s: Seq<char>)
    ensures
        spans_wf(s, spans(s)),
        s.len() > 0 && s.last() != ' ' ==> spans(s).len() > 0 && spans(s).last().1 == s.len(),
        spans(s).len() > 0 ==> spans(s).last().1 <= s.len(),
        s.len() > 0 && s.last() == ' ' ==> spans(s).len() == 0 || spans(s).last().1 < s.len(),
    decreases s.len(),
{
    if s.len() > 0 {
        let init = s.drop_last();
        lemma_spans_wf(init);
        let w = spans(init);
        let i = s.len() - 1;
        assert forall|j: int| 0 <= j < init.len() implies init[j] == s[j] by {}
        if s.last() == ' ' {
        } else if init.len() == 0 || init.last() == ' ' {
            let r = w.push((i, i + 1));
            assert forall|k: int, j: int| 0 <= k < r.len() && r[k].0 <= j < r[k].1 implies #[trigger] s[j]
                != ' ' && #[trigger] r[k].0 == r[k].0 by {
                if k < w.len() {
                    assert(init[j] != ' ');
                }
            }
        } else {
            let r = w.update(w.len() - 1, (w.last().0, i + 1));
            assert forall|k: int, j: int| 0 <= k < r.len() && r[k].0 <= j < r[k].1 implies #[trigger] s[j]
                != ' ' && #[trigger] r[k].0 == r[k].0 by {
                if k < w.len() - 1 || j < i {
                    assert(init[j] != ' ');
                }
            }
        }
    }
}

/// The windows of word indices `[start, end)` that the sliding window visits
/// from `start` on, for `n` words, window size `size` and step `step`.
pub open spec fn windows_from(start: int, n: int, size: int, step: int) -> Seq<(int, int)>
    decreases (if start < n {
        n - start
    } else {
        0
    }),
{
    if start >= n || step <= 0 || start < 0 {
        seq![]
    } else {
        let end = if size >= n - start {
            n
        } else {
            start + size
        };
        if end == n {
            seq![(start, end)]
        } else {
            seq![(start, end)] + windows_from(start + step, n, size, step)
        }
    }
}

/// The characters covered by words `a .. b` of the text.
pub open spec fn window_text(s: Seq<char>, w: (int, int)) -> Seq<char> {
    let sp = spans(s);
    s.subrange(sp[w.0].0, sp[w.1 - 1].1)
}

pub struct OverlapStrategy {
    /// Maximal number of words per chunk.
    pub chunk_size: usize,
    /// Number of words shared by consecutive chunks.
    pub chunk_overlap: usize,
}

impl OverlapStrategy {
    pub fn new(chunk_size: usize, chunk_overlap: usize) -> (r: Self)
        ensures
            r.chunk_size == chunk_size,
            r.chunk_overlap == chunk_overlap,
    {
        Self { chunk_size, chunk_overlap }
    }

    /// How far the window advances: `chunk_size - chunk_overlap`, saturating
    /// at zero, and one when that is zero.
    pub open spec fn step(self) -> int {
        if self.chunk_size > self.chunk_overlap {
            self.chunk_size - self.chunk_overlap
        } else {
            1
        }
    }

    /// The word windows chosen for a text.
    pub open spec fn windows(self, s: Seq<char>) -> Seq<(int, int)> {
        windows_from(0, spans(s).len() as int, self.chunk_size as int, self.step())
    }

    /// Splits the text into windows of at most `chunk_size` space-separated
    /// words, consecutive windows sharing `chunk_overlap` words; each chunk
    /// is the exact slice of the text from its first word to its last.
    pub fn compute_windows(&self, text: &str) -> (chunks: Vec<String>)
        requires
            self.chunk_size > 0 || spans(text@).len() == 0,
        ensures
            chunks@.len() == self.windows(text@).len(),
            forall|k: int|
                0 <= k < chunks@.len() ==> #[trigger] chunks@[k]@ == window_text(
                    text@,
                    self.windows(text@)[k],
                ),
    {
        let s = chars_of(text);
        let ghost sv = s@;
        // 1. word boundaries
        let mut bounds: Vec<(usize, usize)> = Vec::new();
        let mut open: Option<usize> = None;
        let mut i: usize = 0;
        while i < s.len()
            invariant
                i <= s.len(),
                sv == s@,
                open is None ==> bview(bounds@) == spans(sv.take(i as int)),
                open is None ==> (i == 0 || sv[i - 1] == ' '),
                open matches Some(st) ==> bview(bounds@).push((st as int, i as int)) == spans(
                    sv.take(i as int),
                ) && i > 0 && sv[i - 1] != ' ',
            decreases s.len() - i,
        {
            let ghost pre = sv.take(i as int);
            let ghost b0 = bounds@;
            assert(sv.take(i + 1).drop_last() =~= pre);
            assert(sv.take(i + 1).last() == sv[i as int]);
            assert(i > 0 ==> pre.last() == sv[i - 1]);
            if s[i] == ' ' {
                if let Some(st) = open {
                    bounds.push((st, i));
                    open = None;
                    assert(bview(bounds@) =~= bview(b0).push((st as int, i as int)));
                }
            } else if open.is_none() {
                open = Some(i);
            } else {
                let ghost st = open.unwrap();
                assert(spans(sv.take(i + 1)) =~= bview(bounds@).push((st as int, i + 1)));
            }
            i = i + 1;
        }
        let ghost b1 = bounds@;
        if let Some(st) = open {
            bounds.push((st, s.len()));
            assert(bview(bounds@) =~= bview(b1).push((st as int, s.len() as int)));
        }
        assert(sv.take(s.len() as int) =~= sv);
        let ghost sp = spans(sv);
        assert(bview(bounds@) == sp);
        proof {
            lemma_spans_wf(sv);
        }
        let n = bounds.len();
        let mut chunks: Vec<String> = Vec::new();
        if n == 0 {
            return chunks;
        }
        // 2. sliding window
        let step: usize = if self.chunk_size > self.chunk_overlap {
            self.chunk_size - self.chunk_overlap
        } else {
            1
        };
        let ghost all = self.windows(text@);
        let ghost mut done: Seq<(int, int)> = seq![];
        let mut start: usize = 0;
        loop
            invariant_except_break
                start < n,
                all == done + windows_from(start as int, n as int, self.chunk_size as int, step as int),
            invariant
                n == bounds@.len(),
                n > 0,
                step as int == self.step(),
                step >= 1,
                self.chunk_size > 0,
                sv == s@,
                sv == text@,
                sp == spans(sv),
                spans_wf(sv, sp),
                all == self.windows(text@),
                bview(bounds@) == sp,
                chunks@.len() == done.len(),
                forall|k: int|
                    0 <= k < chunks@.len() ==> #[trigger] chunks@[k]@ == window_text(sv, done[k]),
            ensures
                all == done,
            decreases n - start,
        {
            let end = if self.chunk_size >= n - start {
                n
            } else {
                start + self.chunk_size
            };
            assert(bounds@[start as int].0 as int == sp[start as int].0);
            assert(bounds@[end - 1].1 as int == sp[end - 1].1);
            let a = bounds[start].0;
            let b = bounds[end - 1].1;
            assert(sp[start as int].0 <= sp[end - 1].1) by {
                if start < end - 1 {
                    assert(sp[start as int].1 < sp[end - 1].0);
                }
            }
            let piece = slice_chars(&s, a, b);
            chunks.push(string_from_chars(piece.as_slice()));
            proof {
                done = done.push((start as int, end as int));
            }
            assert(chunks@[chunks@.len() - 1]@ == window_text(sv, done.last()));
            if end == n {
                assert(all =~= done);
                break;
            }
            assert(all == done + windows_from(start + step, n as int, self.chunk_size as int, step as int));
            start = start + step;
        }
        chunks
    }
}

spec fn bview(b: Seq<(usize, usize)>) -> Seq<(int, int)> {
    b.map_values(|p: (usize, usize)| (p.0 as int, p.1 as int))
}

/// Word-window chunker that rejects blank input.
pub struct TextChunker {
    strategy: OverlapStrategy,
}

impl TextChunker {
    pub fn new(chunk_size: usize, chunk_overlap: usize) -> (r: Self)
        ensures
            r.strategy_view() == OverlapStrategy::new_spec(chunk_size, chunk_overlap),
    {
        Self { strategy: OverlapStrategy::new(chunk_size, chunk_overlap) }
    }

    /// The windowing strategy this chunker applies.
    pub closed spec fn strategy_view(&self) -> OverlapStrategy {
        self.strategy
    }

    /// Chunks a text; a text that is empty or all whitespace is refused with
    /// a chunking error.
    pub fn chunk_text(&self, text: &str) -> (r: Result<Vec<String>, RagError>)
        requires
            self.strategy_view().chunk_size > 0 || all_ws(text@),
        ensures
            all_ws(text@) <==> r is Err,
            r matches Err(e) ==> (e matches RagError::ChunkingError(m) && m@
                == "Cannot partition completely empty text context structures"@),
            r matches Ok(chunks) ==> chunks@.len() == self.strategy_view().windows(text@).len()
                && forall|k: int|
                0 <= k < chunks@.len() ==> #[trigger] chunks@[k]@ == window_text(
                    text@,
                    self.strategy_view().windows(text@)[k],
                ),
    {
        let cs = chars_of(text);
        if is_blank(&cs) {
            return Err(RagError::ChunkingError(
                "Cannot partition completely empty text context structures".to_string(),
            ));
        }
        proof {
            lemma_not_blank_has_span(text@);
        }
        Ok(self.strategy.compute_windows(text))
    }
}

impl OverlapStrategy {
    pub open spec fn new_spec(chunk_size: usize, chunk_overlap: usize) -> OverlapStrategy {
        OverlapStrategy { chunk_size, chunk_overlap }
    }
}

proof fn lemma_not_blank_has_span(s: Seq<char>)
    ensures
        !all_ws(s) ==> spans(s).len() > 0,
    decreases s.len(),
{
    if !all_ws(s) && s.len() > 0 {
        if s.last() != ' ' {
            lemma_spans_wf(s);
        } else {
            assert(!all_ws(s.drop_last())) by {
                let j = choose|j: int| 0 <= j < s.len() && !crate::text::is_ws(s[j]);
                assert(j < s.len() - 1);
                assert(s.drop_last()[j] == s[j]);
            }
            lemma_not_blank_has_span(s.drop_last());
        }
    }
}


/// Some window of `w` holds word `j`.
pub open spec fn covered(w: Seq<(int, int)>, j: int) -> bool {
    exists|k: int| 0 <= k < w.len() && #[trigger] w[k].0 <= j < w[k].1
}

/// Shape of the windows visited from any start position.
proof fn lemma_windows_from_shape(start: int, n: int, size: int, step: int)
    requires
        0 <= start < n,
        1 <= step <= size,
    ensures
        ({
            let w = windows_from(start, n, size, step);
            &&& w.len() > 0
            &&& w[0].0 == start
            &&& w.last().1 == n
            &&& forall|k: int| 0 <= k < w.len() ==> start <= #[trigger] w[k].0 < w[k].1 <= n && w[k].1
                - w[k].0 <= size
            &&& forall|k: int| 0 <= k < w.len() - 1 ==> #[trigger] w[k].1 == w[k].0 + size && w[k
                + 1].0 == w[k].0 + step
            &&& forall|j: int| start <= j < n ==> #[trigger] covered(w, j)
            &&& w.len() == if n - start <= size {
                1
            } else {
                1 + (n - start - size + step - 1) / step
            }
        }),
    decreases n - start,
{
    let w = windows_from(start, n, size, step);
    if size >= n - start {
        assert(w =~= seq![(start, n)]);
        assert forall|j: int| start <= j < n implies #[trigger] covered(w, j) by {
            assert(w[0].0 <= j < w[0].1);
        }
    } else {
        let rest = windows_from(start + step, n, size, step);
        lemma_windows_from_shape(start + step, n, size, step);
        assert(w =~= seq![(start, start + size)] + rest);
        assert forall|k: int| 0 <= k < w.len() - 1 implies #[trigger] w[k].1 == w[k].0 + size && w[k
            + 1].0 == w[k].0 + step by {
            if k > 0 {
                assert(w[k] == rest[k - 1]);
                assert(w[k + 1] == rest[k]);
            }
        }
        assert forall|k: int| 0 <= k < w.len() implies start <= #[trigger] w[k].0 < w[k].1 <= n && w[k].1
            - w[k].0 <= size by {
            if k > 0 {
                assert(w[k] == rest[k - 1]);
            }
        }
        assert forall|j: int| start <= j < n implies #[trigger] covered(w, j) by {
            if j < start + size {
                assert(w[0].0 <= j < w[0].1);
            } else {
                assert(covered(rest, j));
                let k = choose|k: int| 0 <= k < rest.len() && #[trigger] rest[k].0 <= j < rest[k].1;
                assert(w[k + 1] == rest[k]);
            }
        }
        let m = n - start - size;
        assert(m > 0);
        if n - start - step <= size {
            assert(m <= step);
            assert((m + step - 1) / step == 1) by (nonlinear_arith)
                requires
                    0 < m <= step,
            ;
        } else {
            assert((m + step - 1) / step == 1 + (m - step + step - 1) / step) by (nonlinear_arith)
                requires
                    m > step,
                    step >= 1,
            ;
        }
    }
}

/// The chunker's windows, for a text with `n` words, window size `size > 0`
/// and overlap `overlap`: none when there are no words; otherwise the first
/// starts at the first word and the last ends at the last word, each holds at
/// most `size` words, every word lies in some window, every window but the
/// last is full and the next one starts `size - overlap` words later (one
/// word later when the overlap is not below the size), so consecutive full
/// windows share `min(overlap, size - 1)` words; and there are
/// `1 + ceil((n - size) / step)` windows when `n > size`, one otherwise.
pub proof fn law_sliding_windows(strategy: OverlapStrategy, n: int)
    requires
        strategy.chunk_size > 0,
        n >= 0,
    ensures
        ({
            let size = strategy.chunk_size as int;
            let step = strategy.step();
            let w = windows_from(0, n, size, step);
            &&& 1 <= step <= size
            &&& (strategy.chunk_overlap < strategy.chunk_size ==> step == size - strategy.chunk_overlap)
            &&& (n == 0 ==> w.len() == 0)
            &&& (n > 0 ==> {
                &&& w[0].0 == 0
                &&& w.last().1 == n
                &&& forall|k: int| 0 <= k < w.len() ==> 0 <= #[trigger] w[k].0 < w[k].1 <= n && w[k].1
                    - w[k].0 <= size
                &&& forall|k: int| 0 <= k < w.len() - 1 ==> #[trigger] w[k].1 == w[k].0 + size && w[k
                    + 1].0 == w[k].0 + step
                &&& forall|j: int| 0 <= j < n ==> #[trigger] covered(w, j)
                &&& w.len() == if n <= size {
                    1
                } else {
                    1 + (n - size + step - 1) / step
                }
            })
        }),
{
    if n > 0 {
        lemma_windows_from_shape(0, n, strategy.chunk_size as int, strategy.step());
    }
}

/// Every chunk of a text is the contiguous piece of the text that runs from
/// the first character of its first word to the last character of its last
/// word: it neither starts nor ends with a space.
pub proof fn law_chunk_is_slice_of_text(strategy: OverlapStrategy, s: Seq<char>, k: int)
    requires
        strategy.chunk_size > 0,
        0 <= k < strategy.windows(s).len(),
    ensures
        exists|a: int, b: int|
            0 <= a < b <= s.len() && window_text(s, strategy.windows(s)[k]) == s.subrange(a, b)
                && s[a] != ' ' && s[b - 1] != ' ',
{
    let n = spans(s).len() as int;
    lemma_windows_from_shape(0, n, strategy.chunk_size as int, strategy.step());
    lemma_spans_wf(s);
    let sp = spans(s);
    let w = strategy.windows(s)[k];
    let a = sp[w.0].0;
    let b = sp[w.1 - 1].1;
    if w.0 < w.1 - 1 {
        assert(sp[w.0].1 < sp[w.1 - 1].0);
    }
    assert(0 <= w.0 < w.1 <= n);
    assert(0 <= sp[w.0].0 < sp[w.0].1 <= s.len());
    assert(0 <= sp[w.1 - 1].0 < sp[w.1 - 1].1 <= s.len());
    assert(a < b);
    assert(s[a] != ' ' && sp[w.0].0 == sp[w.0].0);
    assert(s[b - 1] != ' ' && sp[w.1 - 1].0 == sp[w.1 - 1].0);
    assert(window_text(s, w) == s.subrange(a, b));
}

} // verus!
