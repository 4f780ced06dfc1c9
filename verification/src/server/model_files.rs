//! Choice of the installed Qwen GGUF model among the files found on disk:
//! complete sharded models first, then a single instruct file.
use vstd::prelude::*;
use crate::rag::documents::{extension_of, file_name_of, or_default, path_extension, path_file_name};
use crate::llm::tools::text_eq;
use crate::server::api::{split_chars, split_on};
use crate::text::{ascii_lower_seq, chars_of, contains, contains_seq, digit_value, ends_with, has_suffix, is_digit, parse_int_spec, parse_u32, parse_usize, push_str, rfind, rfind_spec, slice_chars, string_from_chars, to_ascii_lowercase};

verus! {

pub open spec fn gguf_ext() -> Seq<char> {
    seq!['.', 'g', 'g', 'u', 'f']
}

pub open spec fn of_marker() -> Seq<char> {
    seq!['-', 'o', 'f', '-']
}

#[verifier::opaque]
/// How `parse_shard_name` reads a file name such as
/// `qwen2.5-7b-instruct-q4_k_m-00001-of-00002.gguf`: the lowercased name
/// must end in `.gguf`; the part after the last `-of-` is the shard total,
/// the part between the last `-` before it and `-of-` the shard index, and
/// what precedes that `-` the prefix.
pub open spec fn shard_name(f: Seq<char>) -> Option<(Seq<char>, int, int)> {
    let lower = ascii_lower_seq(f);
    if !ends_with(lower, gguf_ext()) {
        None
    } else {
        let suffix = lower.take(lower.len() - 5);
        match rfind_spec(suffix, of_marker()) {
            None => None,
            Some(p) => {
                let before = suffix.take(p);
                match parse_int_spec(suffix.skip(p + 4), false, 0, usize::MAX as int) {
                    Err(_) => None,
                    Ok(total) => match rfind_spec(before, seq!['-']) {
                        None => None,
                        Some(d) => match parse_int_spec(
                            before.skip(d + 1),
                            false,
                            0,
                            usize::MAX as int,
                        ) {
                            Err(_) => None,
                            Ok(index) => Some((before.take(d), index, total)),
                        },
                    },
                }
            },
        }
    }
}

/// Splits a sharded GGUF file name into prefix, shard index and shard total.
pub fn parse_shard_name(filename: &str) -> (r: Option<(String, usize, usize)>)
    ensures
        match shard_name(filename@) {
            None => r is None,
            Some(t) => r matches Some(v) && v.0@ == t.0 && v.1 == t.1 && v.2 == t.2,
        },
{
    let chars = chars_of(filename);
    parse_shard_chars(&chars)
}

#[verifier::rlimit(40)]
fn parse_shard_chars(chars: &Vec<char>) -> (r: Option<(String, usize, usize)>)
    ensures
        match shard_name(chars@) {
            None => r is None,
            Some(t) => r matches Some(v) && v.0@ == t.0 && v.1 == t.1 && v.2 == t.2,
        },
{
    reveal(shard_name);
    let lower = to_ascii_lowercase(chars);
    let ext: Vec<char> = vec!['.', 'g', 'g', 'u', 'f'];
    assert(ext@ =~= gguf_ext());
    if !has_suffix(&lower, &ext) {
        assert(shard_name(chars@) is None);
        return None;
    }
    let suffix = slice_chars(&lower, 0, lower.len() - 5);
    assert(suffix@ =~= lower@.take(lower@.len() - 5));
    let marker: Vec<char> = vec!['-', 'o', 'f', '-'];
    assert(marker@ =~= of_marker());
    let of_pos = match rfind(&suffix, &marker) {
        Some(p) => p,
        None => {
            assert(shard_name(chars@) is None);
            return None;
        },
    };
    let ghost p = of_pos as int;
    assert(rfind_spec(suffix@, of_marker()) == Some(p));
    let before = slice_chars(&suffix, 0, of_pos);
    assert(before@ =~= suffix@.take(of_pos as int));
    let total_str = slice_chars(&suffix, of_pos + 4, suffix.len());
    assert(total_str@ =~= suffix@.skip(of_pos + 4));
    let total = match parse_usize(&total_str) {
        Ok(t) => t,
        Err(_) => {
            assert(shard_name(chars@) is None);
            return None;
        },
    };
    let dash: Vec<char> = vec!['-'];
    assert(dash@ =~= seq!['-']);
    let dash_pos = match rfind(&before, &dash) {
        Some(d) => d,
        None => {
            assert(shard_name(chars@) is None);
            return None;
        },
    };
    let index_str = slice_chars(&before, dash_pos + 1, before.len());
    assert(index_str@ =~= before@.skip(dash_pos + 1));
    let index = match parse_usize(&index_str) {
        Ok(i) => i,
        Err(_) => {
            assert(shard_name(chars@) is None);
            return None;
        },
    };
    let prefix = slice_chars(&before, 0, dash_pos);
    assert(prefix@ =~= before@.take(dash_pos as int));
    assert(shard_name(chars@) == Some((prefix@, index as int, total as int)));
    Some((string_from_chars(prefix.as_slice()), index, total))
}

/// Positions `< n` of the shard files whose prefix is `pre`, in order.
pub open spec fn member_positions(names: Seq<Seq<char>>, pre: Seq<char>, n: int) -> Seq<int>
    decreases n,
{
    if n <= 0 {
        seq![]
    } else if shard_name(names[n - 1]) matches Some(t) && t.0 == pre {
        member_positions(names, pre, n - 1).push(n - 1)
    } else {
        member_positions(names, pre, n - 1)
    }
}

/// The shard files of the model named by `pre`.
pub open spec fn members(names: Seq<Seq<char>>, pre: Seq<char>) -> Seq<int> {
    member_positions(names, pre, names.len() as int)
}

/// The shard indices those files claim, in file order.
pub open spec fn member_indices(names: Seq<Seq<char>>, pre: Seq<char>) -> Seq<int> {
    members(names, pre).map_values(|i: int| shard_name(names[i]).unwrap().1)
}

/// The shards named by `pre` form one complete model of `t > 1` shards, as
/// the runtime requires: there are exactly `t` of them, each claims total
/// `t`, and their indices are distinct values in `1 ..= t`.
pub open spec fn group_complete(names: Seq<Seq<char>>, pre: Seq<char>, t: int) -> bool {
    let m = members(names, pre);
    &&& t > 1
    &&& m.len() == t
    &&& forall|j: int|
        0 <= j < m.len() ==> shard_name(names[#[trigger] m[j]]).unwrap().2 == t && 1
            <= shard_name(names[m[j]]).unwrap().1 <= t
    &&& member_indices(names, pre).no_duplicates()
}

proof fn lemma_member_positions(names: Seq<Seq<char>>, pre: Seq<char>, n: int)
    requires
        0 <= n <= names.len(),
    ensures
        forall|j: int|
            0 <= j < member_positions(names, pre, n).len() ==> 0 <= #[trigger] member_positions(
                names,
                pre,
                n,
            )[j] < n && (shard_name(names[member_positions(names, pre, n)[j]]) matches Some(t)
                && t.0 == pre),
        forall|i: int|
            0 <= i < n && (shard_name(names[i]) matches Some(t) && t.0 == pre) ==> #[trigger] member_positions(
                names,
                pre,
                n,
            ).contains(i),
    decreases n,
{
    if n > 0 {
        lemma_member_positions(names, pre, n - 1);
        let prev = member_positions(names, pre, n - 1);
        if shard_name(names[n - 1]) matches Some(t) && t.0 == pre {
            assert(member_positions(names, pre, n) == prev.push(n - 1));
            assert forall|i: int|
                0 <= i < n && (shard_name(names[i]) matches Some(t) && t.0 == pre) implies #[trigger] member_positions(
                names,
                pre,
                n,
            ).contains(i) by {
                if i < n - 1 {
                    assert(prev.contains(i));
                    let j = choose|j: int| 0 <= j < prev.len() && prev[j] == i;
                    assert(member_positions(names, pre, n)[j] == i);
                } else {
                    assert(member_positions(names, pre, n)[prev.len() as int] == i);
                }
            }
        }
    }
}

/// Distinct shard indices in `1 ..= t`, `t` of them, cover every index.
proof fn lemma_indices_cover(v: Seq<int>, t: int)
    requires
        v.no_duplicates(),
        v.len() == t,
        t >= 0,
        forall|j: int| 0 <= j < v.len() ==> 1 <= #[trigger] v[j] <= t,
    ensures
        forall|k: int| 1 <= k <= t ==> #[trigger] v.contains(k),
{
    broadcast use vstd::seq_lib::seq_to_set_is_finite;

    v.unique_seq_to_set();
    vstd::set_lib::lemma_int_range(1, t + 1);
    let r = vstd::set_lib::set_int_range(1, t + 1);
    assert(v.to_set().subset_of(r)) by {
        assert forall|x: int| v.to_set().contains(x) implies r.contains(x) by {
            let j = choose|j: int| 0 <= j < v.len() && v[j] == x;
        }
    }
    vstd::set_lib::lemma_subset_equality(v.to_set(), r);
    assert forall|k: int| 1 <= k <= t implies #[trigger] v.contains(k) by {
        assert(r.contains(k));
        assert(v.to_set().contains(k));
    }
}

/// Strict lexicographic order of character sequences (the order of `String`).
pub open spec fn seq_lt(a: Seq<char>, b: Seq<char>) -> bool
    decreases a.len(),
{
    if b.len() == 0 {
        false
    } else if a.len() == 0 {
        true
    } else if a[0] != b[0] {
        (a[0] as u32) < (b[0] as u32)
    } else {
        seq_lt(a.drop_first(), b.drop_first())
    }
}

proof fn lemma_seq_lt_transitive(a: Seq<char>, b: Seq<char>, c: Seq<char>)
    requires
        seq_lt(a, b),
        seq_lt(b, c),
    ensures
        seq_lt(a, c),
    decreases a.len(),
{
    if a.len() > 0 && b.len() > 0 && c.len() > 0 && a[0] == b[0] && b[0] == c[0] {
        lemma_seq_lt_transitive(a.drop_first(), b.drop_first(), c.drop_first());
    }
}

proof fn lemma_seq_lt_irreflexive(a: Seq<char>)
    ensures
        !seq_lt(a, a),
    decreases a.len(),
{
    if a.len() > 0 {
        lemma_seq_lt_irreflexive(a.drop_first());
    }
}

/// Lexicographic comparison of character vectors.
pub fn lex_lt(a: &Vec<char>, b: &Vec<char>) -> (r: bool)
    ensures
        r == seq_lt(a@, b@),
{
    let mut i: usize = 0;
    assert(a@.skip(0) =~= a@);
    assert(b@.skip(0) =~= b@);
    while i < a.len() && i < b.len() && a[i] == b[i]
        invariant
            i <= a.len(),
            i <= b.len(),
            seq_lt(a@, b@) == seq_lt(a@.skip(i as int), b@.skip(i as int)),
        decreases a.len() - i,
    {
        assert(a@.skip(i as int).drop_first() =~= a@.skip(i + 1));
        assert(b@.skip(i as int).drop_first() =~= b@.skip(i + 1));
        i = i + 1;
    }
    if i == b.len() {
        false
    } else if i == a.len() {
        true
    } else {
        (a[i] as u32) < (b[i] as u32)
    }
}

pub open spec fn instruct_word() -> Seq<char> {
    seq!['i', 'n', 's', 't', 'r', 'u', 'c', 't']
}

pub open spec fn qwen_word() -> Seq<char> {
    seq!['q', 'w', 'e', 'n']
}

/// A non-empty run of decimal digits.
pub open spec fn digits_only(s: Seq<char>) -> bool {
    s.len() > 0 && forall|i: int| 0 <= i < s.len() ==> #[trigger] is_digit(s[i])
}

/// The parameter count a name segment gives, in tenths of a billion: a
/// segment such as `7b`, `14b` or `0.5b` (whole billions with at most one
/// decimal, as the Qwen files write it).
pub open spec fn size_segment(seg: Seq<char>) -> Option<int> {
    if seg.len() >= 2 && seg.last() == 'b' {
        let body = seg.drop_last();
        if digits_only(body) {
            match parse_int_spec(body, false, 0, u32::MAX as int) {
                Ok(v) => Some(v * 10),
                Err(_) => None,
            }
        } else if body.len() >= 3 && body[body.len() - 2] == '.' && is_digit(body.last()) && digits_only(
            body.take(body.len() - 2),
        ) {
            match parse_int_spec(body.take(body.len() - 2), false, 0, u32::MAX as int) {
                Ok(v) => Some(v * 10 + digit_value(body.last())),
                Err(_) => None,
            }
        } else {
            None
        }
    } else {
        None
    }
}

/// The size given by the first segment that names one, 0 when none does.
pub open spec fn first_size(segs: Seq<Seq<char>>) -> int
    decreases segs.len(),
{
    if segs.len() == 0 {
        0
    } else {
        match size_segment(segs[0]) {
            Some(v) => v,
            None => first_size(segs.drop_first()),
        }
    }
}

/// The parameter count of a model, read from its lowercased name's
/// `-`-separated segments (`qwen2.5-14b-instruct-q4_k_m` gives 140).
pub open spec fn model_size(name: Seq<char>) -> int {
    first_size(split_on(ascii_lower_seq(name), '-'))
}

/// Sharded model `a` is preferred over `b`: an instruct model over one that
/// is not, then the larger model, then the greater lowercased name.
pub open spec fn preferred(a: Seq<char>, b: Seq<char>) -> bool {
    let ai = contains_seq(ascii_lower_seq(a), instruct_word());
    let bi = contains_seq(ascii_lower_seq(b), instruct_word());
    (ai && !bi) || (ai == bi && (model_size(a) > model_size(b) || (model_size(a) == model_size(b) && seq_lt(
        ascii_lower_seq(b),
        ascii_lower_seq(a),
    ))))
}

proof fn lemma_preferred_order(a: Seq<char>, b: Seq<char>, c: Seq<char>)
    ensures
        preferred(a, b) && preferred(b, c) ==> preferred(a, c),
        !preferred(a, a),
{
    lemma_seq_lt_irreflexive(ascii_lower_seq(a));
    if preferred(a, b) && preferred(b, c) {
        if seq_lt(ascii_lower_seq(b), ascii_lower_seq(a)) && seq_lt(
            ascii_lower_seq(c),
            ascii_lower_seq(b),
        ) {
            lemma_seq_lt_transitive(ascii_lower_seq(c), ascii_lower_seq(b), ascii_lower_seq(a));
        }
    }
}

/// Whether every character is a decimal digit (and there is one).
fn all_digits(s: &Vec<char>) -> (b: bool)
    ensures
        b == digits_only(s@),
{
    if s.len() == 0 {
        return false;
    }
    let mut i: usize = 0;
    while i < s.len()
        invariant
            i <= s.len(),
            forall|j: int| 0 <= j < i ==> #[trigger] is_digit(s@[j]),
        decreases s.len() - i,
    {
        let c = s[i];
        if !(c >= '0' && c <= '9') {
            assert(!is_digit(s@[i as int]));
            return false;
        }
        i = i + 1;
    }
    true
}

/// The size a name segment gives, as `size_segment` says.
fn segment_size(seg: &Vec<char>) -> (r: Option<u64>)
    ensures
        match size_segment(seg@) {
            Some(v) => r == Some(v as u64) && 0 <= v < u64::MAX,
            None => r is None,
        },
{
    let n = seg.len();
    if n < 2 || seg[n - 1] != 'b' {
        return None;
    }
    let body = slice_chars(seg, 0, n - 1);
    assert(body@ =~= seg@.drop_last());
    let m = body.len();
    if all_digits(&body) {
        match parse_u32(&body) {
            Ok(v) => Some(v as u64 * 10),
            Err(_) => None,
        }
    } else if m >= 3 && body[m - 2] == '.' && body[m - 1] >= '0' && body[m - 1] <= '9' {
        let ip = slice_chars(&body, 0, m - 2);
        assert(ip@ =~= body@.take(m - 2));
        if all_digits(&ip) {
            match parse_u32(&ip) {
                Ok(v) => Some(v as u64 * 10 + ((body[m - 1] as u32) - 48) as u64),
                Err(_) => None,
            }
        } else {
            None
        }
    } else {
        None
    }
}

/// The parameter count of a lowercased model name, as `model_size` says.
fn size_of_model(lower: &Vec<char>) -> (r: u64)
    ensures
        r == first_size(split_on(lower@, '-')),
{
    let segs = split_chars(lower, '-');
    let ghost sv = split_on(lower@, '-');
    let mut i: usize = 0;
    assert(sv.skip(0) =~= sv);
    while i < segs.len()
        invariant
            i <= segs@.len(),
            segs@.map_values(|p: Vec<char>| p@) == sv,
            sv == split_on(lower@, '-'),
            first_size(sv) == first_size(sv.skip(i as int)),
        decreases segs.len() - i,
    {
        assert(segs@[i as int]@ == sv[i as int]);
        assert(sv.skip(i as int)[0] == sv[i as int]);
        match segment_size(&segs[i]) {
            Some(v) => {
                assert(sv.skip(i as int).len() > 0);
                assert(first_size(sv.skip(i as int)) == v);
                return v;
            },
            None => {
                assert(sv.skip(i as int).drop_first() =~= sv.skip(i + 1));
                i = i + 1;
            },
        }
    }
    assert(sv.skip(i as int).len() == 0);
    0
}

fn prefers(a: &String, b: &String) -> (r: bool)
    ensures
        r == preferred(a@, b@),
{
    let la = to_ascii_lowercase(&chars_of(a.as_str()));
    let lb = to_ascii_lowercase(&chars_of(b.as_str()));
    let w: Vec<char> = vec!['i', 'n', 's', 't', 'r', 'u', 'c', 't'];
    assert(w@ =~= instruct_word());
    let ai = contains(&la, &w);
    let bi = contains(&lb, &w);
    let sa = size_of_model(&la);
    let sb = size_of_model(&lb);
    (ai && !bi) || (ai == bi && (sa > sb || (sa == sb && lex_lt(&lb, &la))))
}

/// A single-file model candidate: a Qwen instruct file that is not a shard.
pub open spec fn is_single_candidate(f: Seq<char>) -> bool {
    let lower = ascii_lower_seq(f);
    contains_seq(lower, qwen_word()) && contains_seq(lower, instruct_word()) && shard_name(f) is None
}

/// Positions `< n` of single-file candidates, in order.
pub open spec fn single_positions(names: Seq<Seq<char>>, n: int) -> Seq<int>
    decreases n,
{
    if n <= 0 {
        seq![]
    } else if is_single_candidate(names[n - 1]) {
        single_positions(names, n - 1).push(n - 1)
    } else {
        single_positions(names, n - 1)
    }
}

pub open spec fn some_group_complete(names: Seq<Seq<char>>) -> bool {
    exists|pre: Seq<char>, t: int| group_complete(names, pre, t)
}

/// The installed model chosen for the runtime.
pub enum ResolvedModel {
    /// A complete sharded model; `files` lists positions of the shard files
    /// in shard order.
    Sharded { prefix: String, files: Vec<usize>, display_name: String },
    /// A single GGUF file at position `file`.
    Single { file: usize, display_name: String },
}

/// Why no model could be chosen.
pub enum ModelResolveError {
    /// No usable GGUF file was found.
    NoModelFiles,
    /// GGUF files exist, but none is a Qwen instruct model.
    NoInstructModel,
    /// Several single-file Qwen instruct models are installed (positions).
    MultipleSingleFiles(Vec<usize>),
}

pub open spec fn names_view(names: Seq<String>) -> Seq<Seq<char>> {
    names.map_values(|s: String| s@)
}

pub open spec fn sharded_suffix() -> Seq<char> {
    seq!['.', 'g', 'g', 'u', 'f', ' ', '(', 's', 'h', 'a', 'r', 'd', 'e', 'd', ')']
}

pub open spec fn parsed_matches(p: Option<(String, usize, usize)>, s: Option<(Seq<char>, int, int)>) -> bool {
    match s {
        None => p is None,
        Some(t) => p matches Some(v) && v.0@ == t.0 && v.1 == t.1 && v.2 == t.2,
    }
}

pub open spec fn parsed_ok(parsed: Seq<Option<(String, usize, usize)>>, names: Seq<Seq<char>>) -> bool {
    parsed.len() == names.len() && forall|k: int|
        0 <= k < parsed.len() ==> parsed_matches(#[trigger] parsed[k], shard_name(names[k]))
}

fn member_list(parsed: &Vec<Option<(String, usize, usize)>>, pre: &String, Ghost(names): Ghost<Seq<Seq<char>>>) -> (m: Vec<usize>)
    requires
        parsed_ok(parsed@, names),
    ensures
        m@.map_values(|x: usize| x as int) == members(names, pre@),
{
    let mut m: Vec<usize> = Vec::new();
    let mut j: usize = 0;
    while j < parsed.len()
        invariant
            j <= parsed.len(),
            parsed_ok(parsed@, names),
            m@.map_values(|x: usize| x as int) == member_positions(names, pre@, j as int),
        decreases parsed.len() - j,
    {
        let ghost m0 = m@;
        match &parsed[j] {
            Some(e) => {
                if e.0 == *pre {
                    m.push(j);
                    assert(m@.map_values(|x: usize| x as int) =~= m0.map_values(|x: usize| x as int).push(j as int));
                }
            },
            None => {},
        }
        j = j + 1;
    }
    m
}

fn group_check(parsed: &Vec<Option<(String, usize, usize)>>, pre: &String, t: usize, Ghost(names): Ghost<Seq<Seq<char>>>) -> (r: (bool, Vec<usize>))
    requires
        parsed_ok(parsed@, names),
    ensures
        r.0 == group_complete(names, pre@, t as int),
        r.1@.map_values(|x: usize| x as int) == members(names, pre@),
{
    let m = member_list(parsed, pre, Ghost(names));
    proof {
        lemma_member_positions(names, pre@, names.len() as int);
    }
    let ghost mv = members(names, pre@);
    assert(m@.len() == mv.len());
    assert(forall|k: int| 0 <= k < m@.len() ==> m@[k] as int == mv[k]) by {
        assert forall|k: int| 0 <= k < m@.len() implies m@[k] as int == mv[k] by {
            assert(m@.map_values(|x: usize| x as int)[k] == mv[k]);
        }
    }
    if t <= 1 || m.len() != t {
        return (false, m);
    }
    let mut k: usize = 0;
    while k < m.len()
        invariant
            k <= m.len(),
            m@.len() == mv.len(),
            mv == members(names, pre@),
            forall|q: int| 0 <= q < m@.len() ==> m@[q] as int == mv[q],
            parsed_ok(parsed@, names),
            forall|q: int| 0 <= q < mv.len() ==> 0 <= #[trigger] mv[q] < names.len() && (shard_name(names[mv[q]]) matches Some(tt) && tt.0 == pre@),
            forall|q: int|
                0 <= q < k ==> shard_name(names[#[trigger] mv[q]]).unwrap().2 == t && 1
                    <= shard_name(names[mv[q]]).unwrap().1 <= t,
        decreases m.len() - k,
    {
        let e = parsed[m[k]].as_ref().unwrap();
        assert(parsed_matches(parsed@[m@[k as int] as int], shard_name(names[mv[k as int]])));
        if e.2 != t || e.1 < 1 || e.1 > t {
            return (false, m);
        }
        k = k + 1;
    }
    let ghost idx = member_indices(names, pre@);
    let mut a: usize = 0;
    while a < m.len()
        invariant
            a <= m.len(),
            m@.len() == mv.len(),
            mv == members(names, pre@),
            idx == member_indices(names, pre@),
            forall|q: int| 0 <= q < m@.len() ==> m@[q] as int == mv[q],
            parsed_ok(parsed@, names),
            forall|q: int| 0 <= q < mv.len() ==> 0 <= #[trigger] mv[q] < names.len() && (shard_name(names[mv[q]]) matches Some(tt) && tt.0 == pre@),
            forall|p: int, q: int| 0 <= p < a && 0 <= q < idx.len() && p != q ==> idx[p] != idx[q],
            t > 1,
            mv.len() == t,
            forall|q: int|
                0 <= q < mv.len() ==> shard_name(names[#[trigger] mv[q]]).unwrap().2 == t && 1
                    <= shard_name(names[mv[q]]).unwrap().1 <= t,
        decreases m.len() - a,
    {
        let ia = parsed[m[a]].as_ref().unwrap().1;
        assert(parsed_matches(parsed@[m@[a as int] as int], shard_name(names[mv[a as int]])));
        assert(ia as int == idx[a as int]);
        let mut b: usize = 0;
        while b < m.len()
            invariant
                b <= m.len(),
                a < m.len(),
                m@.len() == mv.len(),
                idx == member_indices(names, pre@),
                mv == members(names, pre@),
                forall|q: int| 0 <= q < m@.len() ==> m@[q] as int == mv[q],
                parsed_ok(parsed@, names),
                forall|q: int| 0 <= q < mv.len() ==> 0 <= #[trigger] mv[q] < names.len() && (shard_name(names[mv[q]]) matches Some(tt) && tt.0 == pre@),
                ia as int == idx[a as int],
                forall|q: int| 0 <= q < b && q != a ==> idx[a as int] != idx[q],
            decreases m.len() - b,
        {
            if b != a {
                let ib = parsed[m[b]].as_ref().unwrap().1;
                assert(parsed_matches(parsed@[m@[b as int] as int], shard_name(names[mv[b as int]])));
                assert(ib as int == idx[b as int]);
                if ia == ib {
                    assert(!idx.no_duplicates());
                    return (false, m);
                }
            }
            b = b + 1;
        }
        a = a + 1;
    }
    assert(idx.no_duplicates());
    (true, m)
}

fn prefix_of(parsed: &Vec<Option<(String, usize, usize)>>, i: usize) -> (p: String)
    requires
        i < parsed@.len(),
        parsed@[i as int] is Some,
    ensures
        p == parsed@[i as int].unwrap().0,
{
    match &parsed[i] {
        Some(e) => e.0.clone(),
        None => String::new(),
    }
}

/// What resolving the model among the file names `names` must give: no
/// names is an error; with a complete sharded model, the preferred one
/// (instruct first, then the largest, then the greatest name) with its
/// shards in order; otherwise the one single-file Qwen instruct model, an
/// error when there is none or more than one.
pub open spec fn resolution(names: Seq<Seq<char>>, r: Result<ResolvedModel, ModelResolveError>) -> bool {
        let singles = single_positions(names, names.len() as int);
        if names.len() == 0 {
            r matches Err(ModelResolveError::NoModelFiles)
        } else if some_group_complete(names) {
            r matches Ok(ResolvedModel::Sharded { prefix, files, display_name }) && (exists|t: int|
                group_complete(names, prefix@, t) && files@.len() == t && forall|k: int|
                    0 <= k < t ==> (shard_name(names[#[trigger] files@[k] as int]) matches Some(
                        e,
                    ) && e.0 == prefix@ && e.1 == k + 1)) && (forall|q: Seq<char>, t2: int|
                #[trigger] group_complete(names, q, t2) ==> !preferred(q, prefix@))
                && display_name@ == prefix@ + sharded_suffix()
        } else if singles.len() == 0 {
            r matches Err(ModelResolveError::NoInstructModel)
        } else if singles.len() == 1 {
            r matches Ok(ResolvedModel::Single { file, display_name }) && file == singles[0]
                && display_name@ == names[file as int]
        } else {
            r matches Err(ModelResolveError::MultipleSingleFiles(v)) && v@.map_values(
                |x: usize| x as int,
            ) == singles
        }
}

proof fn lemma_sharded_resolution(names: Seq<Seq<char>>, prefix: Seq<char>, files: Seq<usize>, display: Seq<char>, t: int)
    requires
        names.len() > 0,
        group_complete(names, prefix, t),
        files.len() == t,
        forall|k: int|
            0 <= k < t ==> (shard_name(names[#[trigger] files[k] as int]) matches Some(e) && e.0 == prefix && e.1 == k
                + 1),
        forall|q: Seq<char>, t2: int| #[trigger] group_complete(names, q, t2) ==> !preferred(q, prefix),
        display == prefix + sharded_suffix(),
    ensures
        forall|pre: String, fs: Vec<usize>, dn: String|
            pre@ == prefix && fs@ == files && dn@ == display ==> #[trigger] resolution(
                names,
                Ok(ResolvedModel::Sharded { prefix: pre, files: fs, display_name: dn }),
            ),
{
    assert(some_group_complete(names));
}

/// Chooses the model to load among GGUF file names (given in the order they
/// were found): the preferred complete sharded model if there is one,
/// otherwise the one single-file Qwen instruct model.
#[verifier::spinoff_prover]
#[verifier::rlimit(60)]
pub fn resolve_qwen_model(file_names: &Vec<String>) -> (r: Result<ResolvedModel, ModelResolveError>)
    ensures
        resolution(names_view(file_names@), r),
{
    let ghost names = names_view(file_names@);
    let n = file_names.len();
    if n == 0 {
        return Err(ModelResolveError::NoModelFiles);
    }
    let mut parsed: Vec<Option<(String, usize, usize)>> = Vec::new();
    let mut i: usize = 0;
    while i < n
        invariant
            i <= n,
            n == file_names@.len(),
            names == names_view(file_names@),
            parsed@.len() == i,
            forall|k: int| 0 <= k < i ==> parsed_matches(#[trigger] parsed@[k], shard_name(names[k])),
        decreases n - i,
    {
        let p = parse_shard_name(file_names[i].as_str());
        parsed.push(p);
        i = i + 1;
    }
    assert(parsed_ok(parsed@, names));
    // the preferred complete sharded model
    let mut best: Option<(usize, usize)> = None;
    let mut best_members: Vec<usize> = Vec::new();
    let mut i: usize = 0;
    while i < n
        invariant
            i <= n,
            n == names.len(),
            parsed_ok(parsed@, names),
            best matches Some(b) ==> b.0 < n && parsed@[b.0 as int] is Some && group_complete(
                names,
                parsed@[b.0 as int].unwrap().0@,
                b.1 as int,
            ) && b.1 == parsed@[b.0 as int].unwrap().2 && best_members@.map_values(|x: usize| x as int)
                == members(names, parsed@[b.0 as int].unwrap().0@),
            best is None ==> forall|k: int|
                0 <= k < i && parsed@[k] is Some ==> !group_complete(
                    names,
                    #[trigger] parsed@[k].unwrap().0@,
                    parsed@[k].unwrap().2 as int,
                ),
            forall|k: int|
                0 <= k < i && parsed@[k] is Some && group_complete(
                    names,
                    #[trigger] parsed@[k].unwrap().0@,
                    parsed@[k].unwrap().2 as int,
                ) ==> (best matches Some(b) && !preferred(
                    parsed@[k].unwrap().0@,
                    parsed@[b.0 as int].unwrap().0@,
                )),
        decreases n - i,
    {
        if parsed[i].is_some() {
            let pre = prefix_of(&parsed, i);
            let t = parsed[i].as_ref().unwrap().2;
            let (complete, mem) = group_check(&parsed, &pre, t, Ghost(names));
            if complete {
                let take = match best {
                    None => true,
                    Some(b) => {
                        let bp = prefix_of(&parsed, b.0);
                        prefers(&pre, &bp)
                    },
                };
                proof {
                    if let Some(b) = best {
                        let bp = parsed@[b.0 as int].unwrap().0@;
                        if take {
                            assert forall|k: int|
                                0 <= k < i && parsed@[k] is Some && group_complete(
                                    names,
                                    #[trigger] parsed@[k].unwrap().0@,
                                    parsed@[k].unwrap().2 as int,
                                ) implies !preferred(parsed@[k].unwrap().0@, pre@) by {
                                lemma_preferred_order(parsed@[k].unwrap().0@, pre@, bp);
                            }
                        }
                    }
                    lemma_preferred_order(pre@, pre@, pre@);
                }
                if take {
                    best = Some((i, t));
                    best_members = mem;
                }
            }
        }
        i = i + 1;
    }
    match best {
        Some(b) => {
            let prefix = prefix_of(&parsed, b.0);
            let t = b.1;
            let ghost mv = members(names, prefix@);
            let ghost idx = member_indices(names, prefix@);
            proof {
                lemma_member_positions(names, prefix@, names.len() as int);
                assert forall|j: int| 0 <= j < idx.len() implies 1 <= #[trigger] idx[j] <= t by {
                    assert(shard_name(names[mv[j]]).unwrap().1 == idx[j]);
                }
                lemma_indices_cover(idx, t as int);
            }
            let mut files: Vec<usize> = Vec::new();
            let mut k: usize = 0;
            while k < t
                invariant
                    0 <= k <= t,
                    t > 1,
                    parsed_ok(parsed@, names),
                    mv == members(names, prefix@),
                    idx == member_indices(names, prefix@),
                    mv.len() == t,
                    best_members@.map_values(|x: usize| x as int) == mv,
                    forall|q: int| 1 <= q <= t ==> #[trigger] idx.contains(q),
                    forall|q: int| 0 <= q < mv.len() ==> 0 <= #[trigger] mv[q] < names.len() && (shard_name(names[mv[q]]) matches Some(tt) && tt.0 == prefix@),
                    files@.len() == k,
                    forall|q: int|
                        0 <= q < files@.len() ==> (shard_name(names[#[trigger] files@[q] as int]) matches Some(
                            e,
                        ) && e.0 == prefix@ && e.1 == q + 1),
                decreases t + 1 - k,
            {
                assert(idx.contains(k + 1));
                let ghost j0 = choose|j: int| 0 <= j < idx.len() && idx[j] == k + 1;
                let mut j: usize = 0;
                let mut found: usize = 0;
                let mut got = false;
                while j < best_members.len()
                    invariant
                        j <= best_members@.len(),
                        best_members@.len() == mv.len(),
                        best_members@.map_values(|x: usize| x as int) == mv,
                        parsed_ok(parsed@, names),
                        idx == member_indices(names, prefix@),
                        mv == members(names, prefix@),
                        forall|q: int| 0 <= q < mv.len() ==> 0 <= #[trigger] mv[q] < names.len() && (shard_name(names[mv[q]]) matches Some(tt) && tt.0 == prefix@),
                        0 <= j0 < idx.len() && idx[j0] == k + 1,
                        k < t,
                        !got ==> forall|q: int| 0 <= q < j ==> idx[q] != k + 1,
                        got ==> (shard_name(names[found as int]) matches Some(e) && e.0 == prefix@ && e.1 == k + 1),
                    decreases best_members@.len() - j,
                {
                    let pos = best_members[j];
                    assert(pos as int == mv[j as int]);
                    assert(parsed_matches(parsed@[pos as int], shard_name(names[pos as int])));
                    let e = parsed[pos].as_ref().unwrap();
                    assert(e.1 as int == idx[j as int]);
                    if e.1 == k + 1 {
                        found = pos;
                        got = true;
                    }
                    j = j + 1;
                }
                assert(got);
                files.push(found);
                k = k + 1;
            }
            let mut display = chars_of(prefix.as_str());
            push_str(&mut display, ".gguf (sharded)");
            proof {
                reveal_strlit(".gguf (sharded)");
                assert forall|q: Seq<char>, t2: int| #[trigger] group_complete(names, q, t2) implies !preferred(q, prefix@) by {
                    let mq = members(names, q);
                    lemma_member_positions(names, q, names.len() as int);
                    let k0 = mq[0];
                    assert(parsed_matches(parsed@[k0], shard_name(names[k0])));
                    assert(parsed@[k0].unwrap().0@ == q);
                    assert(parsed@[k0].unwrap().2 == t2);
                }
                assert(display@ =~= prefix@ + sharded_suffix());
                assert(group_complete(names, prefix@, t as int));
                assert(some_group_complete(names));
                assert(exists|t3: int|
                    group_complete(names, prefix@, t3) && files@.len() == t3 && forall|k: int|
                        0 <= k < t3 ==> (shard_name(names[#[trigger] files@[k] as int]) matches Some(
                            e,
                        ) && e.0 == prefix@ && e.1 == k + 1)) by {
                    assert(files@.len() == t);
                }
            }
            let display_name = string_from_chars(display.as_slice());
            proof {
                lemma_sharded_resolution(names, prefix@, files@, display_name@, t as int);
            }
            let r = ResolvedModel::Sharded { prefix, files, display_name };
            Ok(r)
        },
        None => {
            proof {
                assert(!some_group_complete(names)) by {
                    if some_group_complete(names) {
                        let (q, t2) = choose|q: Seq<char>, t2: int| group_complete(names, q, t2);
                        let mq = members(names, q);
                        lemma_member_positions(names, q, names.len() as int);
                        let k0 = mq[0];
                        assert(parsed_matches(parsed@[k0], shard_name(names[k0])));
                        assert(parsed@[k0].unwrap().0@ == q);
                        assert(parsed@[k0].unwrap().2 == t2);
                    }
                }
            }
            let singles = collect_singles(file_names, &parsed, Ghost(names));
            if singles.len() == 0 {
                Err(ModelResolveError::NoInstructModel)
            } else if singles.len() == 1 {
                let f = singles[0];
                assert(singles@.map_values(|x: usize| x as int)[0] == f as int);
                proof {
                    lemma_single_positions(names, names.len() as int);
                }
                Ok(ResolvedModel::Single { file: f, display_name: file_names[f].clone() })
            } else {
                Err(ModelResolveError::MultipleSingleFiles(singles))
            }
        },
    }
}

proof fn lemma_single_positions(names: Seq<Seq<char>>, n: int)
    requires
        0 <= n <= names.len(),
    ensures
        forall|j: int|
            0 <= j < single_positions(names, n).len() ==> 0 <= #[trigger] single_positions(names, n)[j] < n,
    decreases n,
{
    if n > 0 {
        lemma_single_positions(names, n - 1);
        let prev = single_positions(names, n - 1);
        if is_single_candidate(names[n - 1]) {
            assert forall|j: int|
                0 <= j < single_positions(names, n).len() implies 0 <= #[trigger] single_positions(names, n)[j] < n by {
                if j < prev.len() {
                    assert(single_positions(names, n)[j] == prev[j]);
                }
            }
        }
    }
}

fn collect_singles(file_names: &Vec<String>, parsed: &Vec<Option<(String, usize, usize)>>, Ghost(names): Ghost<Seq<Seq<char>>>) -> (v: Vec<usize>)
    requires
        names == names_view(file_names@),
        parsed_ok(parsed@, names),
    ensures
        v@.map_values(|x: usize| x as int) == single_positions(names, names.len() as int),
{
    let q: Vec<char> = vec!['q', 'w', 'e', 'n'];
    let w: Vec<char> = vec!['i', 'n', 's', 't', 'r', 'u', 'c', 't'];
    assert(q@ =~= qwen_word());
    assert(w@ =~= instruct_word());
    let mut v: Vec<usize> = Vec::new();
    let mut i: usize = 0;
    while i < file_names.len()
        invariant
            i <= file_names@.len(),
            names == names_view(file_names@),
            parsed_ok(parsed@, names),
            q@ == qwen_word(),
            w@ == instruct_word(),
            v@.map_values(|x: usize| x as int) == single_positions(names, i as int),
        decreases file_names@.len() - i,
    {
        let ghost v0 = v@;
        let lower = to_ascii_lowercase(&chars_of(file_names[i].as_str()));
        assert(parsed_matches(parsed@[i as int], shard_name(names[i as int])));
        if contains(&lower, &q) && contains(&lower, &w) && parsed[i].is_none() {
            v.push(i);
            assert(v@.map_values(|x: usize| x as int) =~= v0.map_values(|x: usize| x as int).push(i as int));
        }
        i = i + 1;
    }
    v
}


/// Whether a file found under the model directory may hold model weights:
/// its extension is `gguf` in any letter case, and its name neither starts
/// with a dot nor holds `.part-`, the marks of unfinished downloads.
pub open spec fn model_file_candidate(path: Seq<char>) -> bool {
    let name = or_default(path_file_name(path), Seq::empty());
    &&& path_extension(path) matches Some(e) && ascii_lower_seq(e) == seq!['g', 'g', 'u', 'f']
    &&& !(name.len() > 0 && name[0] == '.')
    &&& !contains_seq(name, seq!['.', 'p', 'a', 'r', 't', '-'])
}

/// Whether the file at `path` may hold model weights.
pub fn is_model_file_candidate(path: &str) -> (b: bool)
    ensures
        b == model_file_candidate(path@),
{
    let is_gguf = match extension_of(path) {
        Some(e) => {
            let lower = to_ascii_lowercase(&chars_of(e.as_str()));
            let g: Vec<char> = vec!['g', 'g', 'u', 'f'];
            text_eq(&lower, &g)
        },
        None => false,
    };
    if !is_gguf {
        return false;
    }
    let name: Vec<char> = match file_name_of(path) {
        Some(n) => chars_of(n.as_str()),
        None => Vec::new(),
    };
    assert(name@ == or_default(path_file_name(path@), Seq::empty()));
    if name.len() > 0 && name[0] == '.' {
        return false;
    }
    let part: Vec<char> = vec!['.', 'p', 'a', 'r', 't', '-'];
    !contains(&name, &part)
}

} // verus!
