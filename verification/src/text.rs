//! Character-level text primitives shared by the chatbot, ingestion and
//! routing code: Unicode whitespace, trimming, whitespace splitting, joining
//! and decimal integer formatting and parsing.
use vstd::prelude::*;

verus! {

/// The Unicode `White_Space` property, which `char::is_whitespace`,
/// `str::trim` and `str::split_whitespace` use.
pub open spec fn is_ws(c: char) -> bool {
    ||| ('\u{9}' <= c && c <= '\u{d}')
    ||| c == ' '
    ||| c == '\u{85}'
    ||| c == '\u{a0}'
    ||| c == '\u{1680}'
    ||| ('\u{2000}' <= c && c <= '\u{200a}')
    ||| c == '\u{2028}'
    ||| c == '\u{2029}'
    ||| c == '\u{202f}'
    ||| c == '\u{205f}'
    ||| c == '\u{3000}'
}

/// Whitespace test for one character.
pub fn is_whitespace(c: char) -> (b: bool)
    ensures
        b == is_ws(c),
{
    ('\u{9}' <= c && c <= '\u{d}') || c == ' ' || c == '\u{85}' || c == '\u{a0}' || c == '\u{1680}'
        || ('\u{2000}' <= c && c <= '\u{200a}') || c == '\u{2028}' || c == '\u{2029}' || c
        == '\u{202f}' || c == '\u{205f}' || c == '\u{3000}'
}

/// Number of bytes of the UTF-8 encoding of a text (what `str::len` gives).
pub open spec fn utf8_len(s: Seq<char>) -> nat {
    vstd::utf8::encode_utf8(s).len()
}

/// Number of UTF-8 bytes of a string slice (`str::len`).
pub fn byte_len(s: &str) -> (n: usize)
    ensures
        n == utf8_len(s@),
{
    broadcast use vstd::slice::axiom_spec_len;

    s.as_bytes().len()
}

/// Every character of `s` is whitespace (vacuously true of the empty text).
pub open spec fn all_ws(s: Seq<char>) -> bool {
    forall|i: int| 0 <= i < s.len() ==> #[trigger] is_ws(s[i])
}

/// `s` with its leading whitespace removed.
pub open spec fn trim_start(s: Seq<char>) -> Seq<char>
    decreases s.len(),
{
    if s.len() > 0 && is_ws(s[0]) {
        trim_start(s.drop_first())
    } else {
        s
    }
}

/// `s` with its trailing whitespace removed.
pub open spec fn trim_end(s: Seq<char>) -> Seq<char>
    decreases s.len(),
{
    if s.len() > 0 && is_ws(s.last()) {
        trim_end(s.drop_last())
    } else {
        s
    }
}

/// `s` with leading and trailing whitespace removed, as `str::trim` does.
pub open spec fn trim(s: Seq<char>) -> Seq<char> {
    trim_end(trim_start(s))
}

/// Leading whitespace removal keeps a suffix of the text.
pub proof fn lemma_trim_start_suffix(s: Seq<char>)
    ensures
        exists|k: int| 0 <= k <= s.len() && trim_start(s) == s.subrange(k, s.len() as int) && all_ws(
            s.subrange(0, k),
        ),
        trim_start(s).len() > 0 ==> !is_ws(trim_start(s)[0]),
    decreases s.len(),
{
    if s.len() > 0 && is_ws(s[0]) {
        lemma_trim_start_suffix(s.drop_first());
        let k = choose|k: int|
            0 <= k <= s.drop_first().len() && trim_start(s.drop_first()) == s.drop_first().subrange(
                k,
                s.drop_first().len() as int,
            ) && all_ws(s.drop_first().subrange(0, k));
        assert(s.drop_first().subrange(k, s.drop_first().len() as int) =~= s.subrange(
            k + 1,
            s.len() as int,
        ));
        assert forall|i: int| 0 <= i < k + 1 implies #[trigger] is_ws(s.subrange(0, k + 1)[i]) by {
            if i > 0 {
                assert(s.subrange(0, k + 1)[i] == s.drop_first().subrange(0, k)[i - 1]);
            }
        }
    } else {
        assert(s.subrange(0, s.len() as int) =~= s);
        assert(s.subrange(0, 0).len() == 0);
    }
}

/// Trailing whitespace removal keeps a prefix of the text.
pub proof fn lemma_trim_end_prefix(s: Seq<char>)
    ensures
        exists|k: int| 0 <= k <= s.len() && trim_end(s) == s.subrange(0, k) && all_ws(
            s.subrange(k, s.len() as int),
        ),
        trim_end(s).len() > 0 ==> !is_ws(trim_end(s).last()),
    decreases s.len(),
{
    if s.len() > 0 && is_ws(s.last()) {
        lemma_trim_end_prefix(s.drop_last());
        let k = choose|k: int|
            0 <= k <= s.drop_last().len() && trim_end(s.drop_last()) == s.drop_last().subrange(0, k)
                && all_ws(s.drop_last().subrange(k, s.drop_last().len() as int));
        assert(s.drop_last().subrange(0, k) =~= s.subrange(0, k));
        assert forall|i: int| 0 <= i < s.len() - k implies #[trigger] is_ws(
            s.subrange(k, s.len() as int)[i],
        ) by {
            if i < s.len() - 1 - k {
                assert(s.subrange(k, s.len() as int)[i] == s.drop_last().subrange(
                    k,
                    s.drop_last().len() as int,
                )[i]);
            }
        }
    } else {
        assert(s.subrange(0, s.len() as int) =~= s);
        assert(s.subrange(s.len() as int, s.len() as int).len() == 0);
    }
}

/// Trimming leaves nothing exactly when the text is all whitespace.
pub proof fn lemma_trim_empty_iff_all_ws(s: Seq<char>)
    ensures
        trim(s).len() == 0 <==> all_ws(s),
    decreases s.len(),
{
    lemma_trim_start_suffix(s);
    let k = choose|k: int|
        0 <= k <= s.len() && trim_start(s) == s.subrange(k, s.len() as int) && all_ws(
            s.subrange(0, k),
        );
    lemma_trim_end_prefix(trim_start(s));
    if all_ws(s) {
        if trim_start(s).len() > 0 {
            assert(trim_start(s)[0] == s[k]);
        }
        assert(trim_start(s).len() == 0);
        assert(trim_end(trim_start(s)) == trim_start(s));
    } else {
        let j = choose|j: int| 0 <= j < s.len() && !is_ws(s[j]);
        assert(j >= k) by {
            if j < k {
                assert(s.subrange(0, k)[j] == s[j]);
            }
        }
        assert(trim_start(s).len() > 0);
        assert(!is_ws(trim_start(s)[0]));
        if trim(s).len() == 0 {
            let t = trim_start(s);
            let m = choose|m: int|
                0 <= m <= t.len() && trim_end(t) == t.subrange(0, m) && all_ws(
                    t.subrange(m, t.len() as int),
                );
            assert(m == 0);
            assert(t.subrange(0, t.len() as int)[0] == t[0]);
        }
    }
}

/// Whether a text is empty after trimming, computed by one scan.
pub fn is_blank(s: &Vec<char>) -> (b: bool)
    ensures
        b == all_ws(s@),
        b == (trim(s@).len() == 0),
{
    proof {
        lemma_trim_empty_iff_all_ws(s@);
    }
    let mut i: usize = 0;
    while i < s.len()
        invariant
            i <= s.len(),
            forall|j: int| 0 <= j < i ==> #[trigger] is_ws(s@[j]),
        decreases s.len() - i,
    {
        if !is_whitespace(s[i]) {
            assert(!is_ws(s@[i as int]));
            assert(!all_ws(s@));
            proof {
                lemma_trim_empty_iff_all_ws(s@);
            }
            return false;
        }
        i = i + 1;
    }
    true
}

/// Characters of a string slice, in order.
pub fn chars_of(s: &str) -> (v: Vec<char>)
    ensures
        v@ == s@,
{
    broadcast use vstd::string::group_string_axioms;

    let mut v: Vec<char> = Vec::new();
    for c in it: s.chars()
        invariant
            v@ == it.seq().take(it.index() as int),
            it.seq() == s@,
    {
        v.push(c);
    }
    v
}

/// Builds a `String` from a sequence of characters (std's `FromIterator<&char>`
/// for `String`).
#[verifier::external_body]
pub(crate) fn string_from_chars(cs: &[char]) -> (s: String)
    ensures
        s@ == cs@,
{
    cs.iter().collect()
}

/// Copies the characters `s[from..to]` into a new vector.
pub fn slice_chars(s: &Vec<char>, from: usize, to: usize) -> (r: Vec<char>)
    requires
        from <= to <= s.len(),
    ensures
        r@ == s@.subrange(from as int, to as int),
{
    let mut r: Vec<char> = Vec::new();
    let mut i = from;
    while i < to
        invariant
            from <= i <= to <= s.len(),
            r@ == s@.subrange(from as int, i as int),
        decreases to - i,
    {
        r.push(s[i]);
        i = i + 1;
    }
    r
}

/// Appends all of `b` to `a`.
pub fn push_all(a: &mut Vec<char>, b: &Vec<char>)
    ensures
        final(a)@ == old(a)@ + b@,
{
    let mut i: usize = 0;
    let ghost a0 = a@;
    while i < b.len()
        invariant
            i <= b.len(),
            a@ == a0 + b@.subrange(0, i as int),
        decreases b.len() - i,
    {
        a.push(b[i]);
        i = i + 1;
        assert(b@.subrange(0, i as int) =~= b@.subrange(0, i - 1).push(b@[i - 1]));
    }
    assert(b@.subrange(0, b.len() as int) =~= b@);
}

/// Appends the characters of a string slice to `a`.
pub fn push_str(a: &mut Vec<char>, s: &str)
    ensures
        final(a)@ == old(a)@ + s@,
{
    let v = chars_of(s);
    push_all(a, &v);
}

/// `str::trim_end`: the text without trailing whitespace.
pub fn trimmed_end(s: &Vec<char>) -> (r: Vec<char>)
    ensures
        r@ == trim_end(s@),
{
    let mut hi: usize = s.len();
    assert(s@.subrange(0, s.len() as int) =~= s@);
    while hi > 0 && is_whitespace(s[hi - 1])
        invariant
            hi <= s.len(),
            trim_end(s@) == trim_end(s@.subrange(0, hi as int)),
        decreases hi,
    {
        assert(s@.subrange(0, hi as int).drop_last() =~= s@.subrange(0, hi - 1));
        hi = hi - 1;
    }
    slice_chars(s, 0, hi)
}

/// `str::trim`: the text without leading and trailing whitespace.
pub fn trimmed(s: &Vec<char>) -> (r: Vec<char>)
    ensures
        r@ == trim(s@),
{
    let mut lo: usize = 0;
    assert(s@.subrange(0, s.len() as int) =~= s@);
    while lo < s.len() && is_whitespace(s[lo])
        invariant
            lo <= s.len(),
            trim_start(s@) == trim_start(s@.subrange(lo as int, s.len() as int)),
        decreases s.len() - lo,
    {
        assert(s@.subrange(lo as int, s.len() as int).drop_first() =~= s@.subrange(
            lo + 1,
            s.len() as int,
        ));
        lo = lo + 1;
    }
    let ghost t = s@.subrange(lo as int, s.len() as int);
    assert(trim_start(t) == t);
    let mut hi: usize = s.len();
    while hi > lo && is_whitespace(s[hi - 1])
        invariant
            lo <= hi <= s.len(),
            trim_end(t) == trim_end(s@.subrange(lo as int, hi as int)),
        decreases hi - lo,
    {
        assert(s@.subrange(lo as int, hi as int).drop_last() =~= s@.subrange(
            lo as int,
            hi - 1,
        ));
        hi = hi - 1;
    }
    slice_chars(s, lo, hi)
}

/// The whitespace-separated words of a text, as `str::split_whitespace`
/// yields them, defined by reading the text from left to right.
pub open spec fn words(s: Seq<char>) -> Seq<Seq<char>>
    decreases s.len(),
{
    if s.len() == 0 {
        seq![]
    } else {
        let init = s.drop_last();
        let c = s.last();
        let w = words(init);
        if is_ws(c) {
            w
        } else if init.len() == 0 || is_ws(init.last()) {
            w.push(seq![c])
        } else {
            w.update(w.len() - 1, w.last().push(c))
        }
    }
}

/// A text that ends in a non-whitespace character has at least one word,
/// and every word is non-empty and free of whitespace.
pub proof fn lemma_words_shape(s: Seq<char>)
    ensures
        s.len() > 0 && !is_ws(s.last()) ==> words(s).len() > 0,
        forall|i: int| 0 <= i < words(s).len() ==> #[trigger] words(s)[i].len() > 0,
        forall|i: int, j: int|
            0 <= i < words(s).len() && 0 <= j < words(s)[i].len() ==> !is_ws(
                #[trigger] words(s)[i][j],
            ),
    decreases s.len(),
{
    if s.len() > 0 {
        lemma_words_shape(s.drop_last());
        let w = words(s.drop_last());
        let c = s.last();
        if !is_ws(c) && !(s.drop_last().len() == 0 || is_ws(s.drop_last().last())) {
            assert forall|i: int, j: int|
                0 <= i < words(s).len() && 0 <= j < words(s)[i].len() implies !is_ws(
                #[trigger] words(s)[i][j],
            ) by {
                if i == w.len() - 1 && j == w.last().len() {
                } else {
                    assert(words(s)[i][j] == w[i][j]);
                }
            }
        }
    }
}

/// Whitespace-separated words of a text (`str::split_whitespace`).
pub fn split_whitespace(s: &Vec<char>) -> (r: Vec<Vec<char>>)
    ensures
        r@.len() == words(s@).len(),
        forall|i: int| 0 <= i < r@.len() ==> #[trigger] r@[i]@ == words(s@)[i],
{
    let mut out: Vec<Vec<char>> = Vec::new();
    let mut i: usize = 0;
    while i < s.len()
        invariant
            i <= s.len(),
            out@.len() == words(s@.take(i as int)).len(),
            forall|k: int| 0 <= k < out@.len() ==> #[trigger] out@[k]@ == words(s@.take(i as int))[k],
        decreases s.len() - i,
    {
        let ghost pre = s@.take(i as int);
        let c = s[i];
        assert(s@.take(i + 1).drop_last() =~= pre);
        assert(s@.take(i + 1).last() == c);
        proof {
            lemma_words_shape(pre);
        }
        if is_whitespace(c) {
        } else if i == 0 || is_whitespace(s[i - 1]) {
            let mut w: Vec<char> = Vec::new();
            w.push(c);
            out.push(w);
            assert(w@ =~= seq![c]);
        } else {
            assert(pre.last() == s@[i - 1]);
            let mut last = out.pop().unwrap();
            last.push(c);
            out.push(last);
        }
        i = i + 1;
        assert forall|k: int| 0 <= k < out@.len() implies #[trigger] out@[k]@ == words(
            s@.take(i as int),
        )[k] by {}
    }
    assert(s@.take(s.len() as int) =~= s@);
    out
}

/// Join of words with a separator.
pub open spec fn join(parts: Seq<Seq<char>>, sep: Seq<char>) -> Seq<char>
    decreases parts.len(),
{
    if parts.len() == 0 {
        seq![]
    } else if parts.len() == 1 {
        parts[0]
    } else {
        join(parts.drop_last(), sep) + sep + parts.last()
    }
}

/// Joins character vectors with a separator (`[..].join(sep)`).
pub fn join_with(parts: &Vec<Vec<char>>, sep: &Vec<char>) -> (r: Vec<char>)
    ensures
        r@ == join(parts@.map_values(|p: Vec<char>| p@), sep@),
{
    let ghost views = parts@.map_values(|p: Vec<char>| p@);
    let mut r: Vec<char> = Vec::new();
    let mut i: usize = 0;
    while i < parts.len()
        invariant
            i <= parts.len(),
            views == parts@.map_values(|p: Vec<char>| p@),
            r@ == join(views.take(i as int), sep@),
        decreases parts.len() - i,
    {
        assert(views.take(i + 1).drop_last() =~= views.take(i as int));
        if i > 0 {
            push_all(&mut r, sep);
        }
        push_all(&mut r, &parts[i]);
        i = i + 1;
    }
    assert(views.take(parts.len() as int) =~= views);
    r
}

/// Decimal digits of a natural number, most significant first.
pub open spec fn decimal(n: nat) -> Seq<char>
    decreases n,
{
    if n < 10 {
        seq![digit_char(n)]
    } else {
        decimal(n / 10).push(digit_char(n % 10))
    }
}

/// The ASCII digit for a value below ten.
pub open spec fn digit_char(d: nat) -> char {
    if d == 0 {
        '0'
    } else if d == 1 {
        '1'
    } else if d == 2 {
        '2'
    } else if d == 3 {
        '3'
    } else if d == 4 {
        '4'
    } else if d == 5 {
        '5'
    } else if d == 6 {
        '6'
    } else if d == 7 {
        '7'
    } else if d == 8 {
        '8'
    } else {
        '9'
    }
}

fn digit_to_char(d: u64) -> (c: char)
    requires
        d < 10,
    ensures
        c == digit_char(d as nat),
{
    if d == 0 {
        '0'
    } else if d == 1 {
        '1'
    } else if d == 2 {
        '2'
    } else if d == 3 {
        '3'
    } else if d == 4 {
        '4'
    } else if d == 5 {
        '5'
    } else if d == 6 {
        '6'
    } else if d == 7 {
        '7'
    } else if d == 8 {
        '8'
    } else {
        '9'
    }
}

/// Decimal text of an unsigned integer, as `u64::to_string` writes it.
pub fn u64_to_decimal(n: u64) -> (r: Vec<char>)
    ensures
        r@ == decimal(n as nat),
    decreases n,
{
    if n < 10 {
        let mut r: Vec<char> = Vec::new();
        r.push(digit_to_char(n));
        r
    } else {
        let mut r = u64_to_decimal(n / 10);
        r.push(digit_to_char(n % 10));
        r
    }
}

/// Decimal text of a signed integer, as `i64::to_string` writes it.
pub open spec fn signed_decimal(n: int) -> Seq<char> {
    if n < 0 {
        seq!['-'] + decimal((-n) as nat)
    } else {
        decimal(n as nat)
    }
}

/// Decimal text of a signed integer (`i64::to_string`).
pub fn i64_to_decimal(n: i64) -> (r: Vec<char>)
    ensures
        r@ == signed_decimal(n as int),
{
    if n < 0 {
        let m: u64 = if n == i64::MIN {
            9223372036854775808u64
        } else {
            (-n) as u64
        };
        let mut r: Vec<char> = Vec::new();
        r.push('-');
        let d = u64_to_decimal(m);
        push_all(&mut r, &d);
        r
    } else {
        u64_to_decimal(n as u64)
    }
}

/// Why a decimal integer did not parse (`core::num::IntErrorKind`).
#[derive(Debug, Clone, Copy, PartialEq, Eq)]
pub enum IntParseError {
    Empty,
    InvalidDigit,
    PosOverflow,
    NegOverflow,
}

/// The description std's `ParseIntError` displays for each kind.
pub open spec fn int_error_text(e: IntParseError) -> Seq<char> {
    match e {
        IntParseError::Empty => "cannot parse integer from empty string"@,
        IntParseError::InvalidDigit => "invalid digit found in string"@,
        IntParseError::PosOverflow => "number too large to fit in target type"@,
        IntParseError::NegOverflow => "number too small to fit in target type"@,
    }
}

impl IntParseError {
    /// The description std's `ParseIntError` displays for this kind.
    pub fn message(&self) -> (s: String)
        ensures
            s@ == int_error_text(*self),
    {
        match self {
            IntParseError::Empty => "cannot parse integer from empty string".to_string(),
            IntParseError::InvalidDigit => "invalid digit found in string".to_string(),
            IntParseError::PosOverflow => "number too large to fit in target type".to_string(),
            IntParseError::NegOverflow => "number too small to fit in target type".to_string(),
        }
    }
}

pub open spec fn is_digit(c: char) -> bool {
    '0' <= c && c <= '9'
}

pub open spec fn digit_value(c: char) -> int {
    c as int - '0' as int
}

/// Left-to-right accumulation of decimal digits, stopping at the first
/// invalid digit or the first step that leaves `[lo, hi]`, as std's integer
/// `from_str` does.
pub open spec fn accumulate(digits: Seq<char>, neg: bool, lo: int, hi: int) -> Result<
    int,
    IntParseError,
>
    decreases digits.len(),
{
    if digits.len() == 0 {
        Ok(0)
    } else {
        match accumulate(digits.drop_last(), neg, lo, hi) {
            Err(e) => Err(e),
            Ok(acc) => {
                let c = digits.last();
                if !is_digit(c) {
                    Err(IntParseError::InvalidDigit)
                } else if neg {
                    let v = acc * 10 - digit_value(c);
                    if v < lo {
                        Err(IntParseError::NegOverflow)
                    } else {
                        Ok(v)
                    }
                } else {
                    let v = acc * 10 + digit_value(c);
                    if v > hi {
                        Err(IntParseError::PosOverflow)
                    } else {
                        Ok(v)
                    }
                }
            },
        }
    }
}

/// What std's `str::parse` gives for an integer type with bounds `[lo, hi]`
/// (`signed` tells whether a leading `-` is accepted).
pub open spec fn parse_int_spec(s: Seq<char>, signed: bool, lo: int, hi: int) -> Result<
    int,
    IntParseError,
> {
    if s.len() == 0 {
        Err(IntParseError::Empty)
    } else if (s[0] == '+' || (signed && s[0] == '-')) && s.len() == 1 {
        Err(IntParseError::InvalidDigit)
    } else if s[0] == '+' {
        accumulate(s.drop_first(), false, lo, hi)
    } else if signed && s[0] == '-' {
        accumulate(s.drop_first(), true, lo, hi)
    } else {
        accumulate(s, false, lo, hi)
    }
}

proof fn lemma_accumulate_bounds(digits: Seq<char>, neg: bool, lo: int, hi: int)
    requires
        lo <= 0 <= hi,
    ensures
        accumulate(digits, neg, lo, hi) matches Ok(v) ==> lo <= v <= hi && (neg ==> v <= 0) && (!neg
            ==> v >= 0),
    decreases digits.len(),
{
    if digits.len() > 0 {
        lemma_accumulate_bounds(digits.drop_last(), neg, lo, hi);
    }
}

fn parse_int_core(s: &Vec<char>, signed: bool, lo: i128, hi: i128) -> (r: Result<i128, IntParseError>)
    requires
        -0x1_0000_0000_0000_0000 <= lo <= 0 <= hi <= 0x1_0000_0000_0000_0000,
    ensures
        match parse_int_spec(s@, signed, lo as int, hi as int) {
            Ok(v) => r == Ok::<i128, IntParseError>(v as i128),
            Err(e) => r == Err::<i128, IntParseError>(e),
        },
{
    if s.len() == 0 {
        return Err(IntParseError::Empty);
    }
    let first = s[0];
    if (first == '+' || (signed && first == '-')) && s.len() == 1 {
        return Err(IntParseError::InvalidDigit);
    }
    let neg = signed && first == '-';
    let start: usize = if first == '+' || neg {
        1
    } else {
        0
    };
    let ghost digits = s@.subrange(start as int, s.len() as int);
    assert(start == 1 ==> digits =~= s@.drop_first());
    assert(start == 0 ==> digits =~= s@);
    assert(parse_int_spec(s@, signed, lo as int, hi as int) == accumulate(digits, neg, lo as int, hi as int));
    let mut acc: i128 = 0;
    let mut i = start;
    while i < s.len()
        invariant
            start <= i <= s.len(),
            parse_int_spec(s@, signed, lo as int, hi as int) == accumulate(digits, neg, lo as int, hi as int),
            -0x1_0000_0000_0000_0000 <= lo <= 0 <= hi <= 0x1_0000_0000_0000_0000,
            digits == s@.subrange(start as int, s.len() as int),
            accumulate(digits.take(i - start), neg, lo as int, hi as int) == Ok::<
                int,
                IntParseError,
            >(acc as int),
        decreases s.len() - i,
    {
        proof {
            lemma_accumulate_bounds(digits.take(i - start), neg, lo as int, hi as int);
            assert(digits.take(i + 1 - start).drop_last() =~= digits.take(i - start));
            assert(digits.take(i + 1 - start).last() == s@[i as int]);
        }
        let c = s[i];
        if !('0' <= c && c <= '9') {
            proof {
                assert(accumulate(digits.take(i + 1 - start), neg, lo as int, hi as int)
                    == Err::<int, IntParseError>(IntParseError::InvalidDigit));
                lemma_accumulate_error_sticks(digits, neg, lo as int, hi as int, i + 1 - start);
            }
            return Err(IntParseError::InvalidDigit);
        }
        let d = (c as u32 - '0' as u32) as i128;
        if neg {
            let v = acc * 10 - d;
            if v < lo {
                proof {
                    assert(accumulate(digits.take(i + 1 - start), neg, lo as int, hi as int)
                        == Err::<int, IntParseError>(IntParseError::NegOverflow));
                    lemma_accumulate_error_sticks(digits, neg, lo as int, hi as int, i + 1 - start);
                }
                return Err(IntParseError::NegOverflow);
            }
            acc = v;
        } else {
            let v = acc * 10 + d;
            if v > hi {
                proof {
                    assert(accumulate(digits.take(i + 1 - start), neg, lo as int, hi as int)
                        == Err::<int, IntParseError>(IntParseError::PosOverflow));
                    lemma_accumulate_error_sticks(digits, neg, lo as int, hi as int, i + 1 - start);
                }
                return Err(IntParseError::PosOverflow);
            }
            acc = v;
        }
        i = i + 1;
    }
    assert(digits.take(s.len() - start) =~= digits);
    Ok(acc)
}

/// Once the accumulation fails on a prefix, it fails the same way on the
/// whole digit string.
proof fn lemma_accumulate_error_sticks(digits: Seq<char>, neg: bool, lo: int, hi: int, k: int)
    requires
        0 <= k <= digits.len(),
        accumulate(digits.take(k), neg, lo, hi) is Err,
    ensures
        accumulate(digits, neg, lo, hi) == accumulate(digits.take(k), neg, lo, hi),
    decreases digits.len() - k,
{
    if k < digits.len() {
        assert(digits.take(k + 1).drop_last() =~= digits.take(k));
        lemma_accumulate_error_sticks(digits, neg, lo, hi, k + 1);
    } else {
        assert(digits.take(k) =~= digits);
    }
}

/// `str::parse::<i64>`.
pub fn parse_i64(s: &Vec<char>) -> (r: Result<i64, IntParseError>)
    ensures
        match parse_int_spec(s@, true, i64::MIN as int, i64::MAX as int) {
            Ok(v) => r == Ok::<i64, IntParseError>(v as i64),
            Err(e) => r == Err::<i64, IntParseError>(e),
        },
        r matches Ok(x) ==> parse_int_spec(s@, true, i64::MIN as int, i64::MAX as int) == Ok::<int, IntParseError>(x as int),
{
    proof {
        let spec_r = parse_int_spec(s@, true, i64::MIN as int, i64::MAX as int);
        if s@.len() > 0 {
            if s@[0] == '+' {
                lemma_accumulate_bounds(s@.drop_first(), false, i64::MIN as int, i64::MAX as int);
            } else if s@[0] == '-' {
                lemma_accumulate_bounds(s@.drop_first(), true, i64::MIN as int, i64::MAX as int);
            } else {
                lemma_accumulate_bounds(s@, false, i64::MIN as int, i64::MAX as int);
            }
        }
    }
    match parse_int_core(s, true, i64::MIN as i128, i64::MAX as i128) {
        Ok(v) => Ok(v as i64),
        Err(e) => Err(e),
    }
}

/// `str::parse::<i32>`.
pub fn parse_i32(s: &Vec<char>) -> (r: Result<i32, IntParseError>)
    ensures
        match parse_int_spec(s@, true, i32::MIN as int, i32::MAX as int) {
            Ok(v) => r == Ok::<i32, IntParseError>(v as i32),
            Err(e) => r == Err::<i32, IntParseError>(e),
        },
        r matches Ok(x) ==> parse_int_spec(s@, true, i32::MIN as int, i32::MAX as int) == Ok::<int, IntParseError>(x as int),
{
    proof {
        if s@.len() > 0 {
            if s@[0] == '+' {
                lemma_accumulate_bounds(s@.drop_first(), false, i32::MIN as int, i32::MAX as int);
            } else if s@[0] == '-' {
                lemma_accumulate_bounds(s@.drop_first(), true, i32::MIN as int, i32::MAX as int);
            } else {
                lemma_accumulate_bounds(s@, false, i32::MIN as int, i32::MAX as int);
            }
        }
    }
    match parse_int_core(s, true, i32::MIN as i128, i32::MAX as i128) {
        Ok(v) => Ok(v as i32),
        Err(e) => Err(e),
    }
}

/// `str::parse::<u64>`.
pub fn parse_u64(s: &Vec<char>) -> (r: Result<u64, IntParseError>)
    ensures
        match parse_int_spec(s@, false, 0, u64::MAX as int) {
            Ok(v) => r == Ok::<u64, IntParseError>(v as u64),
            Err(e) => r == Err::<u64, IntParseError>(e),
        },
        r matches Ok(x) ==> parse_int_spec(s@, false, 0, u64::MAX as int) == Ok::<int, IntParseError>(x as int),
{
    proof {
        if s@.len() > 0 {
            if s@[0] == '+' {
                lemma_accumulate_bounds(s@.drop_first(), false, 0, u64::MAX as int);
            } else {
                lemma_accumulate_bounds(s@, false, 0, u64::MAX as int);
            }
        }
    }
    match parse_int_core(s, false, 0, u64::MAX as i128) {
        Ok(v) => Ok(v as u64),
        Err(e) => Err(e),
    }
}


/// `str::parse::<u32>`.
pub fn parse_u32(s: &Vec<char>) -> (r: Result<u32, IntParseError>)
    ensures
        match parse_int_spec(s@, false, 0, u32::MAX as int) {
            Ok(v) => r == Ok::<u32, IntParseError>(v as u32),
            Err(e) => r == Err::<u32, IntParseError>(e),
        },
        r matches Ok(x) ==> parse_int_spec(s@, false, 0, u32::MAX as int) == Ok::<int, IntParseError>(x as int),
{
    proof {
        if s@.len() > 0 {
            if s@[0] == '+' {
                lemma_accumulate_bounds(s@.drop_first(), false, 0, u32::MAX as int);
            } else {
                lemma_accumulate_bounds(s@, false, 0, u32::MAX as int);
            }
        }
    }
    match parse_int_core(s, false, 0, u32::MAX as i128) {
        Ok(v) => Ok(v as u32),
        Err(e) => Err(e),
    }
}

/// `str::parse::<usize>`.
pub fn parse_usize(s: &Vec<char>) -> (r: Result<usize, IntParseError>)
    ensures
        match parse_int_spec(s@, false, 0, usize::MAX as int) {
            Ok(v) => r == Ok::<usize, IntParseError>(v as usize),
            Err(e) => r == Err::<usize, IntParseError>(e),
        },
        r matches Ok(x) ==> parse_int_spec(s@, false, 0, usize::MAX as int) == Ok::<int, IntParseError>(x as int),
{
    proof {
        if s@.len() > 0 {
            if s@[0] == '+' {
                lemma_accumulate_bounds(s@.drop_first(), false, 0, usize::MAX as int);
            } else {
                lemma_accumulate_bounds(s@, false, 0, usize::MAX as int);
            }
        }
    }
    match parse_int_core(s, false, 0, usize::MAX as i128) {
        Ok(v) => Ok(v as usize),
        Err(e) => Err(e),
    }
}

/// ASCII lowercase of one character (`char::to_ascii_lowercase`).
pub open spec fn ascii_lower(c: char) -> char {
    if 'A' <= c && c <= 'Z' {
        ((c as u32) + 32) as char
    } else {
        c
    }
}

/// ASCII lowercase of a text (`str::to_ascii_lowercase`).
pub open spec fn ascii_lower_seq(s: Seq<char>) -> Seq<char> {
    s.map_values(|c: char| ascii_lower(c))
}

pub fn to_ascii_lower_char(c: char) -> (r: char)
    ensures
        r == ascii_lower(c),
{
    if 'A' <= c && c <= 'Z' {
        ((c as u8) + 32) as char
    } else {
        c
    }
}

/// ASCII lowercase copy of a text.
pub fn to_ascii_lowercase(s: &Vec<char>) -> (r: Vec<char>)
    ensures
        r@ == ascii_lower_seq(s@),
{
    let mut r: Vec<char> = Vec::new();
    let mut i: usize = 0;
    while i < s.len()
        invariant
            i <= s.len(),
            r@ == ascii_lower_seq(s@.take(i as int)),
        decreases s.len() - i,
    {
        r.push(to_ascii_lower_char(s[i]));
        i = i + 1;
        assert(ascii_lower_seq(s@.take(i as int)) =~= ascii_lower_seq(s@.take(i - 1)).push(
            ascii_lower(s@[i - 1]),
        ));
    }
    assert(s@.take(s.len() as int) =~= s@);
    r
}

/// `pat` occurs in `s` starting at position `p`.
pub open spec fn occurs_at(s: Seq<char>, pat: Seq<char>, p: int) -> bool {
    0 <= p && p + pat.len() <= s.len() && s.subrange(p, p + pat.len()) == pat
}

/// `pat` occurs somewhere in `s` (`str::contains`).
pub open spec fn contains_seq(s: Seq<char>, pat: Seq<char>) -> bool {
    exists|p: int| occurs_at(s, pat, p)
}

/// The last position at which `pat` occurs in `s` (`str::rfind`).
#[verifier::opaque]
pub open spec fn rfind_spec(s: Seq<char>, pat: Seq<char>) -> Option<int> {
    if exists|p: int| occurs_at(s, pat, p) {
        Some(choose|p: int| occurs_at(s, pat, p) && forall|q: int| p < q ==> !occurs_at(s, pat, q))
    } else {
        None
    }
}

/// Whether `pat` occurs in `s` at `p`.
pub fn matches_at(s: &Vec<char>, pat: &Vec<char>, p: usize) -> (b: bool)
    ensures
        b == occurs_at(s@, pat@, p as int),
{
    if p > s.len() || pat.len() > s.len() - p {
        return false;
    }
    let mut j: usize = 0;
    while j < pat.len()
        invariant
            p + pat.len() <= s.len(),
            j <= pat.len(),
            forall|k: int| 0 <= k < j ==> s@[p + k] == pat@[k],
        decreases pat.len() - j,
    {
        if s[p + j] != pat[j] {
            assert(s@.subrange(p as int, p + pat.len())[j as int] != pat@[j as int]);
            return false;
        }
        j = j + 1;
    }
    assert(s@.subrange(p as int, p + pat.len()) =~= pat@);
    true
}

/// Last occurrence of a pattern (`str::rfind`).
pub fn rfind(s: &Vec<char>, pat: &Vec<char>) -> (r: Option<usize>)
    ensures
        r is None <==> rfind_spec(s@, pat@) is None,
        r matches Some(p) ==> rfind_spec(s@, pat@) == Some(p as int) && occurs_at(s@, pat@, p as int),
{
    reveal(rfind_spec);
    if pat.len() > s.len() {
        assert(!exists|p: int| occurs_at(s@, pat@, p));
        return None;
    }
    let mut p: usize = s.len() - pat.len();
    loop
        invariant
            p <= s.len() - pat.len(),
            pat.len() <= s.len(),
            forall|q: int| p < q ==> !occurs_at(s@, pat@, q),
        decreases p,
    {
        if matches_at(s, pat, p) {
            reveal(rfind_spec);
            let ghost c = choose|c: int| occurs_at(s@, pat@, c) && forall|q: int| c < q ==> !occurs_at(s@, pat@, q);
            assert(c == p) by {
                if c < p {
                } else if c > p {
                }
            }
            return Some(p);
        }
        if p == 0 {
            reveal(rfind_spec);
            assert(!exists|q: int| occurs_at(s@, pat@, q));
            return None;
        }
        p = p - 1;
    }
}

/// Whether `pat` occurs in `s` (`str::contains`).
pub fn contains(s: &Vec<char>, pat: &Vec<char>) -> (b: bool)
    ensures
        b == contains_seq(s@, pat@),
{
    let r = rfind(s, pat);
    reveal(rfind_spec);
    match r {
        Some(_) => true,
        None => false,
    }
}

/// Whether `s` starts with `pat` (`str::starts_with`).
pub open spec fn starts_with(s: Seq<char>, pat: Seq<char>) -> bool {
    pat.len() <= s.len() && s.take(pat.len() as int) == pat
}

/// Whether `s` ends with `pat` (`str::ends_with`).
pub open spec fn ends_with(s: Seq<char>, pat: Seq<char>) -> bool {
    pat.len() <= s.len() && s.skip(s.len() - pat.len()) == pat
}

pub fn has_prefix(s: &Vec<char>, pat: &Vec<char>) -> (b: bool)
    ensures
        b == starts_with(s@, pat@),
{
    let b = matches_at(s, pat, 0);
    proof {
        if pat@.len() <= s@.len() {
            assert(s@.subrange(0, pat@.len() as int) =~= s@.take(pat@.len() as int));
        }
    }
    b
}

pub fn has_suffix(s: &Vec<char>, pat: &Vec<char>) -> (b: bool)
    ensures
        b == ends_with(s@, pat@),
{
    if pat.len() > s.len() {
        return false;
    }
    let b = matches_at(s, pat, s.len() - pat.len());
    proof {
        assert(s@.subrange(s@.len() - pat@.len(), s@.len() as int) =~= s@.skip(s@.len() - pat@.len()));
    }
    b
}

/// Vector of the characters of a string literal or other slice, used for
/// fixed patterns.
pub fn lit(s: &str) -> (v: Vec<char>)
    ensures
        v@ == s@,
{
    chars_of(s)
}

} // verus!
