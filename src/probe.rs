//! Reading the prober's report of the source size: `WIDTHxHEIGHT`, with
//! surrounding whitespace.
use vstd::prelude::*;
use vstd::string::StrSliceExecFns;
use crate::decimal::{chars_value, is_digit_char};

verus! {

/// Whether a character is whitespace in the Unicode sense: tab, line feed,
/// vertical tab, form feed, carriage return, space, next line, no-break
/// space, ogham space mark, the spaces U+2000 to U+200A, line and paragraph
/// separators, narrow no-break space, medium mathematical space and
/// ideographic space.
pub open spec fn is_space_char(c: char) -> bool {
    ('\u{9}' <= c <= '\u{d}') || c == ' ' || c == '\u{85}' || c == '\u{a0}' || c == '\u{1680}'
        || ('\u{2000}' <= c <= '\u{200a}') || c == '\u{2028}' || c == '\u{2029}'
        || c == '\u{202f}' || c == '\u{205f}' || c == '\u{3000}'
}

/// `s` without its leading whitespace.
pub open spec fn trim_front(s: Seq<char>) -> Seq<char>
    decreases s.len(),
{
    if s.len() > 0 && is_space_char(s[0]) {
        trim_front(s.drop_first())
    } else {
        s
    }
}

/// `s` without its trailing whitespace.
pub open spec fn trim_back(s: Seq<char>) -> Seq<char>
    decreases s.len(),
{
    if s.len() > 0 && is_space_char(s.last()) {
        trim_back(s.drop_last())
    } else {
        s
    }
}

/// `s` without whitespace at either end.
pub open spec fn trimmed(s: Seq<char>) -> Seq<char> {
    trim_back(trim_front(s))
}

/// The length of the first `x`-separated field of `s`.
pub open spec fn field_len(s: Seq<char>) -> nat
    decreases s.len(),
{
    if s.len() == 0 || s[0] == 'x' {
        0
    } else {
        1 + field_len(s.drop_first())
    }
}

/// `f` without a leading `+`.
pub open spec fn unsigned_part(f: Seq<char>) -> Seq<char> {
    if f.len() > 0 && f[0] == '+' { f.drop_first() } else { f }
}

/// Whether every character of `d` is a digit.
pub open spec fn all_digits(d: Seq<char>) -> bool {
    forall|i: int| 0 <= i < d.len() ==> is_digit_char(#[trigger] d[i])
}

/// An unsigned 32-bit decimal number: an optional `+`, then one or more
/// digits, of a value that fits.
pub open spec fn parse_u32(f: Seq<char>) -> Option<u32> {
    let d = unsigned_part(f);
    if d.len() > 0 && all_digits(d) && chars_value(d) <= u32::MAX {
        Some(chars_value(d) as u32)
    } else {
        None
    }
}

/// The (width, height) that a prober's output reports: the text is trimmed
/// and split at each `x`; the first two fields must be numbers, and any
/// further fields are ignored.
pub open spec fn probe_result(out: Seq<char>) -> Option<(u32, u32)> {
    let t = trimmed(out);
    let k = field_len(t);
    if k >= t.len() {
        None
    } else {
        let rest = t.subrange(k as int + 1, t.len() as int);
        let m = field_len(rest);
        match (parse_u32(t.subrange(0, k as int)), parse_u32(rest.subrange(0, m as int))) {
            (Some(w), Some(h)) => Some((w, h)),
            _ => None,
        }
    }
}

/// Whether `c` is whitespace.
fn is_space(c: char) -> (r: bool)
    ensures
        r == is_space_char(c),
{
    ('\u{9}' <= c && c <= '\u{d}') || c == ' ' || c == '\u{85}' || c == '\u{a0}' || c == '\u{1680}'
        || ('\u{2000}' <= c && c <= '\u{200a}') || c == '\u{2028}' || c == '\u{2029}'
        || c == '\u{202f}' || c == '\u{205f}' || c == '\u{3000}'
}

/// The bounds of `s` without whitespace at either end.
fn trim_range(s: &Vec<char>) -> (r: (usize, usize))
    ensures
        r.0 <= r.1 <= s@.len(),
        s@.subrange(r.0 as int, r.1 as int) == trimmed(s@),
{
    let len = s.len();
    let mut a: usize = 0;
    assert(s@.subrange(0, len as int) =~= s@);
    while a < len && is_space(s[a])
        invariant
            a <= len == s@.len(),
            trim_front(s@) == trim_front(s@.subrange(a as int, len as int)),
        decreases len - a,
    {
        assert(s@.subrange(a as int, len as int).drop_first() =~= s@.subrange(a + 1, len as int));
        a = a + 1;
    }
    assert(trim_front(s@) == s@.subrange(a as int, len as int));
    let mut b: usize = len;
    while b > a && is_space(s[b - 1])
        invariant
            a <= b <= len == s@.len(),
            trimmed(s@) == trim_back(s@.subrange(a as int, b as int)),
        decreases b - a,
    {
        assert(s@.subrange(a as int, b as int).drop_last() =~= s@.subrange(a as int, b - 1));
        b = b - 1;
    }
    (a, b)
}

/// The end of the `x`-separated field of `s` that starts at `from`, within `to`.
fn field_end(s: &Vec<char>, from: usize, to: usize) -> (k: usize)
    requires
        from <= to <= s@.len(),
    ensures
        from <= k <= to,
        k - from == field_len(s@.subrange(from as int, to as int)),
{
    let mut k: usize = from;
    while k < to && s[k] != 'x'
        invariant
            from <= k <= to <= s@.len(),
            field_len(s@.subrange(from as int, to as int)) == (k - from) + field_len(s@.subrange(k as int, to as int)),
        decreases to - k,
    {
        assert(s@.subrange(k as int, to as int).drop_first() =~= s@.subrange(k + 1, to as int));
        k = k + 1;
    }
    k
}

/// The value of an all-digit sequence is at least that of each of its prefixes.
proof fn lemma_prefix_value_le(d: Seq<char>, j: int)
    requires
        0 <= j <= d.len(),
        all_digits(d),
    ensures
        chars_value(d.subrange(0, j)) <= chars_value(d),
    decreases d.len(),
{
    if j == d.len() {
        assert(d.subrange(0, j) =~= d);
    } else {
        let p = d.drop_last();
        assert(all_digits(p)) by {
            assert forall|i: int| 0 <= i < p.len() implies is_digit_char(#[trigger] p[i]) by {
                assert(p[i] == d[i]);
            }
        }
        lemma_prefix_value_le(p, j);
        assert(p.subrange(0, j) =~= d.subrange(0, j));
    }
}

/// Parses the number in `s[from..to]`.
fn parse_field(s: &Vec<char>, from: usize, to: usize) -> (r: Option<u32>)
    requires
        from <= to <= s@.len(),
    ensures
        r == parse_u32(s@.subrange(from as int, to as int)),
{
    let ghost f = s@.subrange(from as int, to as int);
    let mut start: usize = from;
    if start < to && s[start] == '+' {
        start = start + 1;
        assert(f.drop_first() =~= s@.subrange(start as int, to as int));
    }
    let ghost d = s@.subrange(start as int, to as int);
    assert(d == unsigned_part(f));
    if start == to {
        return None;
    }
    let mut value: u64 = 0;
    let mut i: usize = start;
    assert(d.subrange(0, 0) =~= Seq::<char>::empty());
    while i < to
        invariant
            from <= start <= i <= to <= s@.len(),
            d == s@.subrange(start as int, to as int),
            f == s@.subrange(from as int, to as int),
            d == unsigned_part(f),
            forall|j: int| start <= j < i ==> is_digit_char(#[trigger] s@[j]),
            value == chars_value(d.subrange(0, i - start)),
            value <= u32::MAX,
        decreases to - i,
    {
        let c = s[i];
        if c < '0' || c > '9' {
            assert(d[i - start] == s@[i as int]);
            assert(!is_digit_char(d[i - start]));
            assert(!all_digits(d));
            assert(parse_u32(f) is None);
            return None;
        }
        assert(d.subrange(0, i + 1 - start).drop_last() =~= d.subrange(0, i - start));
        let digit: u32 = (c as u32) - 48;
        let next: u64 = value * 10 + digit as u64;
        if next > u32::MAX as u64 {
            proof {
                if all_digits(d) {
                    lemma_prefix_value_le(d, i + 1 - start);
                    assert(chars_value(d.subrange(0, i + 1 - start)) == next);
                    assert(chars_value(d) > u32::MAX);
                }
                assert(parse_u32(f) is None);
            }
            return None;
        }
        value = next;
        i = i + 1;
    }
    assert(d.subrange(0, to - start) =~= d);
    assert forall|j: int| 0 <= j < d.len() implies is_digit_char(#[trigger] d[j]) by {
        assert(d[j] == s@[start + j]);
    }
    assert(all_digits(d));
    Some(value as u32)
}

/// The characters of `s`, one by one.
fn chars_of(s: &str) -> (r: Vec<char>)
    ensures
        r@ == s@,
{
    let n = s.unicode_len();
    let mut v: Vec<char> = Vec::new();
    let mut i: usize = 0;
    while i < n
        invariant
            i <= n == s@.len(),
            v@ == s@.subrange(0, i as int),
        decreases n - i,
    {
        v.push(s.get_char(i));
        assert(v@ =~= s@.subrange(0, i + 1));
        i = i + 1;
    }
    assert(v@ =~= s@);
    v
}

/// Reads the source size from the prober's output text.
pub fn parse_probe_output(text: &str) -> (r: Option<(u32, u32)>)
    ensures
        r == probe_result(text@),
{
    let out = chars_of(text);
    let (a, b) = trim_range(&out);
    let ghost t = out@.subrange(a as int, b as int);
    let k = field_end(&out, a, b);
    if k == b {
        return None;
    }
    assert(t.subrange(0, k - a) =~= out@.subrange(a as int, k as int));
    let ghost rest = t.subrange(k - a + 1, t.len() as int);
    assert(rest =~= out@.subrange(k + 1, b as int));
    let m = field_end(&out, k + 1, b);
    assert(rest.subrange(0, m - (k + 1)) =~= out@.subrange(k + 1, m as int));
    let w = parse_field(&out, a, k);
    let h = parse_field(&out, k + 1, m);
    match (w, h) {
        (Some(w), Some(h)) => Some((w, h)),
        _ => None,
    }
}

} // verus!
