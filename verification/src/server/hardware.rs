//! What the model installer reads from the machine: installed memory and
//! the graphics cards that `nvidia-smi` lists.
use vstd::prelude::*;
use crate::chat::vision::{lines_of, text_lines};
use crate::server::api::{split_chars, split_on};
use crate::llm::tools::text_eq;
use crate::text::{chars_of, parse_int_spec, parse_u64, parse_usize, split_whitespace, trim, trimmed, words};

verus! {

/// `str::parse::<u64>` of a text.
pub open spec fn u64_of(s: Seq<char>) -> Option<int> {
    match parse_int_spec(s, false, 0, u64::MAX as int) {
        Ok(v) => Some(v),
        Err(_) => None,
    }
}

/// The total memory that `/proc/meminfo` reports, in bytes: the first line
/// whose first word is `MemTotal:` gives the size in KiB as its second word.
/// The scan stops without an answer at a line with no word at all, at a
/// `MemTotal:` line without a readable number, and where the size in bytes
/// does not fit in a `u64`.
pub open spec fn meminfo_total(lines: Seq<Seq<char>>) -> Option<int>
    decreases lines.len(),
{
    if lines.len() == 0 {
        None
    } else {
        let w = words(lines[0]);
        if w.len() == 0 {
            None
        } else if w[0] != "MemTotal:"@ {
            meminfo_total(lines.drop_first())
        } else if w.len() < 2 {
            None
        } else {
            match u64_of(w[1]) {
                Some(kib) => if kib * 1024 <= u64::MAX {
                    Some(kib * 1024)
                } else {
                    None
                },
                None => None,
            }
        }
    }
}

/// Total memory, in bytes, from the text of `/proc/meminfo`.
pub fn mem_total_bytes(meminfo: &str) -> (r: Option<u64>)
    ensures
        match meminfo_total(text_lines(meminfo@)) {
            Some(b) => r == Some(b as u64),
            None => r is None,
        },
{
    let cs = chars_of(meminfo);
    let ls = lines_of(&cs);
    let ghost lines = text_lines(meminfo@);
    let mut i: usize = 0;
    assert(lines.skip(0) =~= lines);
    while i < ls.len()
        invariant
            i <= ls@.len(),
            lines == text_lines(meminfo@),
            ls@.map_values(|l: Vec<char>| l@) == lines,
            meminfo_total(lines) == meminfo_total(lines.skip(i as int)),
        decreases ls.len() - i,
    {
        let ghost rest = lines.skip(i as int);
        assert(ls@.map_values(|l: Vec<char>| l@)[i as int] == ls@[i as int]@);
        assert(rest.len() > 0);
        assert(rest[0] == ls@[i as int]@);
        assert(rest.drop_first() =~= lines.skip(i + 1));
        let w = split_whitespace(&ls[i]);
        let ghost ws = words(rest[0]);
        assert(w@.len() == ws.len());
        if w.len() == 0 {
            assert(meminfo_total(rest) is None);
            return None;
        }
        if !text_eq(&w[0], &chars_of("MemTotal:")) {
            i = i + 1;
            continue;
        }
        assert(ws[0] == "MemTotal:"@);
        if w.len() < 2 {
            assert(meminfo_total(rest) is None);
            return None;
        }
        assert(w@[1]@ == ws[1]);
        let kib = match parse_u64(&w[1]) {
            Ok(k) => k,
            Err(_) => {
                assert(u64_of(ws[1]) is None);
                assert(meminfo_total(rest) is None);
                return None;
            },
        };
        assert(u64_of(ws[1]) == Some(kib as int));
        assert(meminfo_total(rest) == if kib * 1024 <= u64::MAX {
            Some(kib * 1024)
        } else {
            None::<int>
        });
        return kib.checked_mul(1024);
    }
    assert(lines.skip(i as int).len() == 0);
    None
}

/// A positive number of bytes given in a setting, such as the
/// `FINTALLY_RAM_BYTES` override.
pub open spec fn positive_bytes(value: Seq<char>) -> Option<int> {
    match u64_of(trim(value)) {
        Some(b) => if b > 0 {
            Some(b)
        } else {
            None
        },
        None => None,
    }
}

/// The memory size an override setting gives, if it is a positive number.
pub fn ram_override_bytes(value: &str) -> (r: Option<u64>)
    ensures
        match positive_bytes(value@) {
            Some(b) => r == Some(b as u64),
            None => r is None,
        },
{
    let t = trimmed(&chars_of(value));
    match parse_u64(&t) {
        Ok(b) => if b > 0 {
            Some(b)
        } else {
            None
        },
        Err(_) => None,
    }
}

/// The number a system tool printed (`sysctl -n hw.memsize`, or the
/// PowerShell memory query), surrounding whitespace ignored.
pub fn reported_bytes(output: &str) -> (r: Option<u64>)
    ensures
        match u64_of(trim(output@)) {
            Some(b) => r == Some(b as u64),
            None => r is None,
        },
{
    let t = trimmed(&chars_of(output));
    match parse_u64(&t) {
        Ok(b) => Some(b),
        Err(_) => None,
    }
}

/// One line of `nvidia-smi --query-gpu=index,memory.total` output: the
/// card's index and its memory in bytes (MiB scaled, saturating), for a line
/// whose first two comma-separated fields are a number and a positive
/// number.
pub open spec fn gpu_entry(line: Seq<char>) -> Option<(usize, u64)> {
    let f = split_on(line, ',');
    match parse_int_spec(trim(f[0]), false, 0, usize::MAX as int) {
        Ok(index) => if f.len() >= 2 {
            match u64_of(trim(f[1])) {
                Some(mib) => if mib > 0 {
                    Some(
                        (
                            index as usize,
                            if mib * 1048576 <= u64::MAX {
                                (mib * 1048576) as u64
                            } else {
                                u64::MAX
                            },
                        ),
                    )
                } else {
                    None
                },
                None => None,
            }
        } else {
            None
        },
        Err(_) => None,
    }
}

/// The cards of an `nvidia-smi` listing, in order, lines that do not
/// describe one skipped.
pub open spec fn gpu_inventory(lines: Seq<Seq<char>>) -> Seq<(usize, u64)>
    decreases lines.len(),
{
    if lines.len() == 0 {
        Seq::empty()
    } else {
        let init = gpu_inventory(lines.drop_last());
        match gpu_entry(lines.last()) {
            Some(e) => init.push(e),
            None => init,
        }
    }
}

/// Reads the cards of an `nvidia-smi` listing.
pub fn parse_gpu_inventory(stdout: &str) -> (r: Vec<(usize, u64)>)
    ensures
        r@ == gpu_inventory(text_lines(stdout@)),
{
    let cs = chars_of(stdout);
    let ls = lines_of(&cs);
    let ghost lines = text_lines(stdout@);
    let mut out: Vec<(usize, u64)> = Vec::new();
    let mut i: usize = 0;
    while i < ls.len()
        invariant
            i <= ls@.len(),
            lines == text_lines(stdout@),
            ls@.map_values(|l: Vec<char>| l@) == lines,
            out@ == gpu_inventory(lines.take(i as int)),
        decreases ls.len() - i,
    {
        let ghost line = lines[i as int];
        assert(line == ls@[i as int]@);
        assert(lines.take(i + 1).drop_last() =~= lines.take(i as int));
        assert(lines.take(i + 1).last() == line);
        let fields = split_chars(&ls[i], ',');
        proof {
            crate::server::api::lemma_split_nonempty(line, ',');
        }
        let ghost f = split_on(line, ',');
        assert(fields@[0]@ == f[0]);
        let idx = parse_usize(&trimmed(&fields[0]));
        match idx {
            Ok(index) => {
                if fields.len() >= 2 {
                    assert(fields@[1]@ == f[1]);
                    match parse_u64(&trimmed(&fields[1])) {
                        Ok(mib) => {
                            if mib > 0 {
                                let bytes: u64 = match mib.checked_mul(1048576) {
                                    Some(b) => b,
                                    None => u64::MAX,
                                };
                                out.push((index, bytes));
                            }
                        },
                        Err(_) => {},
                    }
                }
            },
            Err(_) => {},
        }
        i = i + 1;
    }
    assert(lines.take(ls@.len() as int) =~= lines);
    out
}

/// The card the installer sizes models for: the one with the most memory,
/// the first listed among equals; `None` when there is none.
pub fn select_best_gpu(cards: &Vec<(usize, u64)>) -> (r: Option<usize>)
    ensures
        r is None <==> cards@.len() == 0,
        r matches Some(p) ==> p < cards@.len() && (forall|i: int|
            0 <= i < cards@.len() ==> #[trigger] cards@[i].1 <= cards@[p as int].1) && (forall|i: int|
            0 <= i < p ==> #[trigger] cards@[i].1 < cards@[p as int].1),
{
    if cards.len() == 0 {
        return None;
    }
    let mut best: usize = 0;
    let mut i: usize = 1;
    while i < cards.len()
        invariant
            1 <= i <= cards@.len(),
            best < i,
            forall|k: int| 0 <= k < i ==> #[trigger] cards@[k].1 <= cards@[best as int].1,
            forall|k: int| 0 <= k < best ==> #[trigger] cards@[k].1 < cards@[best as int].1,
        decreases cards.len() - i,
    {
        if cards[i].1 > cards[best].1 {
            best = i;
        }
        i = i + 1;
    }
    Some(best)
}

} // verus!
