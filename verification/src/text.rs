//! Text helpers: UTF-8 decoding, character-wise replacement, decimal numbers.
use vstd::prelude::*;
use vstd::utf8::{encode_utf8, valid_utf8};
use crate::modem::response::{all_digits, digits_value, is_digit, DIGIT_NINE, DIGIT_ZERO, PLUS};

verus! {

/// Decodes `bytes` as UTF-8 text (std's `String::from_utf8`).
///
/// Trusted: std documents that the call succeeds exactly when the bytes are
/// well-formed UTF-8 and that the string then holds those very bytes; the
/// error value is dropped.
#[verifier::external_body]
pub(crate) fn string_from_utf8(bytes: Vec<u8>) -> (text: Option<String>)
    ensures
        text is Some <==> valid_utf8(bytes@),
        text matches Some(s) ==> encode_utf8(s@) == bytes@,
{
    String::from_utf8(bytes).ok()
}

} // verus!

verus! {

/// Appends one character (std's `String::push`).
///
/// Trusted: std documents that the character is added at the end.
#[verifier::external_body]
pub(crate) fn push_char(s: &mut String, c: char)
    ensures
        final(s)@ == old(s)@.push(c),
{
    s.push(c)
}

/// The characters of `s`, in order.
pub fn chars_of(s: &str) -> (chars: Vec<char>)
    ensures
        chars@ == s@,
{
    let mut chars: Vec<char> = Vec::new();
    for c in it: s.chars()
        invariant
            chars@ == it.seq().take(it.index() as int),
    {
        chars.push(c);
    }
    chars
}

} // verus!

verus! {

/// `s` with every occurrence of `pattern` replaced by `replacement`, the
/// occurrences taken left to right without overlap (as std's `str::replace`
/// does for a non-empty pattern).
pub open spec fn replace_all(s: Seq<char>, pattern: Seq<char>, replacement: Seq<char>) -> Seq<char>
    decreases s.len(),
{
    if s.len() == 0 {
        Seq::empty()
    } else if 0 < pattern.len() <= s.len() && s.take(pattern.len() as int) == pattern {
        replacement + replace_all(s.skip(pattern.len() as int), pattern, replacement)
    } else {
        seq![s[0]] + replace_all(s.skip(1), pattern, replacement)
    }
}

/// Text without the first character of `pattern` is left as it is, and so is
/// anything written after it.
pub proof fn lemma_replace_plain_prefix(x: Seq<char>, y: Seq<char>, pattern: Seq<char>, replacement: Seq<char>)
    requires
        pattern.len() > 0,
        forall|k: int| 0 <= k < x.len() ==> x[k] != pattern[0],
    ensures
        replace_all(x + y, pattern, replacement) == x + replace_all(y, pattern, replacement),
    decreases x.len(),
{
    if x.len() == 0 {
        assert(x + y =~= y);
    } else {
        let s = x + y;
        assert(s[0] == x[0]);
        if pattern.len() <= s.len() {
            assert(s.take(pattern.len() as int)[0] == s[0]);
        }
        assert(s.skip(1) =~= x.skip(1) + y);
        lemma_replace_plain_prefix(x.skip(1), y, pattern, replacement);
        assert(seq![x[0]] + x.skip(1) =~= x);
        assert(seq![x[0]] + (x.skip(1) + replace_all(y, pattern, replacement))
            =~= x + replace_all(y, pattern, replacement));
    }
}

/// Text that starts with the pattern starts with the replacement.
pub proof fn lemma_replace_leading_match(y: Seq<char>, pattern: Seq<char>, replacement: Seq<char>)
    requires
        pattern.len() > 0,
    ensures
        replace_all(pattern + y, pattern, replacement) == replacement + replace_all(y, pattern, replacement),
{
    let s = pattern + y;
    assert(s.take(pattern.len() as int) =~= pattern);
    assert(s.skip(pattern.len() as int) =~= y);
}

/// Text in which the first character of the pattern does not occur is
/// unchanged.
pub proof fn lemma_replace_absent(s: Seq<char>, pattern: Seq<char>, replacement: Seq<char>)
    requires
        pattern.len() > 0,
        forall|k: int| 0 <= k < s.len() ==> s[k] != pattern[0],
    ensures
        replace_all(s, pattern, replacement) == s,
{
    lemma_replace_plain_prefix(s, Seq::empty(), pattern, replacement);
    assert(s + Seq::<char>::empty() =~= s);
    assert(replace_all(Seq::<char>::empty(), pattern, replacement) =~= Seq::<char>::empty());
}

fn matches_at(s: &Vec<char>, i: usize, pattern: &Vec<char>) -> (m: bool)
    requires
        i <= s@.len(),
    ensures
        m == (pattern@.len() <= s@.len() - i && s@.skip(i as int).take(pattern@.len() as int) == pattern@),
{
    if pattern.len() > s.len() - i {
        return false;
    }
    let n = s.len();
    let mut j: usize = 0;
    while j < pattern.len()
        invariant
            n == s@.len(),
            j <= pattern@.len(),
            pattern@.len() <= s@.len() - i,
            i <= s@.len(),
            forall|m: int| 0 <= m < j ==> s@[i + m] == pattern@[m],
        decreases pattern@.len() - j,
    {
        assert(i + j < n);
        if s[i + j] != pattern[j] {
            assert(s@.skip(i as int).take(pattern@.len() as int)[j as int] != pattern@[j as int]);
            return false;
        }
        j = j + 1;
    }
    assert(s@.skip(i as int).take(pattern@.len() as int) =~= pattern@);
    true
}

/// `s` with each occurrence of the non-empty `pattern` replaced by `replacement`.
pub fn replace_chars(s: &Vec<char>, pattern: &Vec<char>, replacement: &str) -> (out: String)
    requires
        pattern@.len() > 0,
    ensures
        out@ == replace_all(s@, pattern@, replacement@),
{
    let mut out = String::new();
    let mut i: usize = 0;
    assert(s@.skip(0) =~= s@);
    while i < s.len()
        invariant
            i <= s@.len(),
            pattern@.len() > 0,
            out@ + replace_all(s@.skip(i as int), pattern@, replacement@) == replace_all(s@, pattern@, replacement@),
        decreases s@.len() - i,
    {
        let ghost rest = s@.skip(i as int);
        if matches_at(s, i, pattern) {
            assert(rest.skip(pattern@.len() as int) =~= s@.skip(i + pattern@.len()));
            out.append(replacement);
            i = i + pattern.len();
            assert(out@ + replace_all(s@.skip(i as int), pattern@, replacement@)
                =~= replace_all(s@, pattern@, replacement@));
        } else {
            assert(rest[0] == s@[i as int]);
            assert(rest.skip(1) =~= s@.skip(i + 1));
            push_char(&mut out, s[i]);
            i = i + 1;
            assert(out@ + replace_all(s@.skip(i as int), pattern@, replacement@)
                =~= replace_all(s@, pattern@, replacement@));
        }
    }
    assert(s@.skip(i as int) =~= Seq::<char>::empty());
    assert(out@ + Seq::<char>::empty() =~= out@);
    out
}

} // verus!

verus! {

/// An unsigned decimal number as std reads it into a `u64`: an optional
/// leading `+`, then one or more digits, the value within `u64`.
pub open spec fn decimal_u64(b: Seq<u8>) -> Option<u64> {
    decimal_u64_body(if b.len() > 0 && b[0] == PLUS { b.drop_first() } else { b })
}

/// One more digit `d` after the value `acc`, unless that leaves `u64`.
fn shift_in_digit(acc: u64, d: u64) -> (next: Option<u64>)
    requires
        d <= 9,
    ensures
        next is Some <==> acc * 10 + d <= u64::MAX,
        next matches Some(v) ==> v == acc * 10 + d,
{
    if acc > (u64::MAX - d) / 10 {
        assert(acc * 10 + d > u64::MAX) by (nonlinear_arith)
            requires acc > (u64::MAX - d) / 10, d <= 9;
        None
    } else {
        assert(acc * 10 + d <= u64::MAX) by (nonlinear_arith)
            requires acc <= (u64::MAX - d) / 10, d <= 9;
        Some(acc * 10 + d)
    }
}

/// A digit string is worth at least as much as any of its prefixes.
pub proof fn lemma_digits_value_prefix(s: Seq<u8>, k: int)
    requires
        0 <= k <= s.len(),
        all_digits(s),
    ensures
        digits_value(s.take(k)) <= digits_value(s),
    decreases s.len(),
{
    if k < s.len() {
        let d = s.drop_last();
        assert(all_digits(d)) by {
            assert forall|m: int| 0 <= m < d.len() implies is_digit(#[trigger] d[m]) by {
                assert(d[m] == s[m]);
            }
        }
        assert(d.take(k) =~= s.take(k));
        lemma_digits_value_prefix(d, k);
    } else {
        assert(s.take(k) =~= s);
    }
}

/// Reads `b[first..]`, which is not empty, as a string of decimal digits.
fn digits_at(b: &[u8], first: usize) -> (value: Option<u64>)
    requires
        first < b@.len(),
    ensures
        value == decimal_u64_body(b@.subrange(first as int, b@.len() as int)),
{
    let mut acc: u64 = 0;
    let mut k: usize = first;
    while k < b.len()
        invariant
            first <= k <= b@.len(),
            all_digits(b@.subrange(first as int, k as int)),
            acc == digits_value(b@.subrange(first as int, k as int)),
        decreases b@.len() - k,
    {
        let c = b[k];
        if c < DIGIT_ZERO || c > DIGIT_NINE {
            proof {
                lemma_not_all_digits(b@, first as int, k as int);
            }
            return None;
        }
        proof {
            lemma_digits_extend(b@, first as int, k as int);
        }
        match shift_in_digit(acc, (c - DIGIT_ZERO) as u64) {
            Some(v) => {
                acc = v;
            },
            None => {
                proof {
                    lemma_overflow_is_final(b@, first as int, k + 1);
                }
                return None;
            },
        }
        k = k + 1;
    }
    assert(b@.subrange(first as int, k as int) =~= b@.subrange(first as int, b@.len() as int));
    Some(acc)
}

/// Reads `text` as an unsigned decimal number (std's `u64::from_str`).
pub fn parse_u64(text: &str) -> (value: Option<u64>)
    ensures
        value == decimal_u64(encode_utf8(text@)),
{
    let b = text.as_bytes();
    let first: usize = if b.len() > 0 && b[0] == PLUS { 1 } else { 0 };
    proof {
        let bs = b@;
        let digits = if bs.len() > 0 && bs[0] == PLUS { bs.drop_first() } else { bs };
        assert(digits =~= bs.subrange(first as int, bs.len() as int));
    }
    if b.len() == first {
        return None;
    }
    digits_at(b, first)
}

proof fn lemma_digits_extend(bs: Seq<u8>, first: int, k: int)
    requires
        0 <= first <= k < bs.len(),
        all_digits(bs.subrange(first, k)),
        is_digit(bs[k]),
    ensures
        all_digits(bs.subrange(first, k + 1)),
        digits_value(bs.subrange(first, k + 1)) == digits_value(bs.subrange(first, k)) * 10 + (bs[k] - DIGIT_ZERO),
{
    let next = bs.subrange(first, k + 1);
    assert(next.drop_last() =~= bs.subrange(first, k));
    assert forall|m: int| 0 <= m < next.len() implies is_digit(#[trigger] next[m]) by {
        if m < next.len() - 1 {
            assert(next[m] == bs.subrange(first, k)[m]);
        }
    }
}

proof fn lemma_not_all_digits(bs: Seq<u8>, first: int, k: int)
    requires
        0 <= first <= k < bs.len(),
        !is_digit(bs[k]),
    ensures
        !all_digits(bs.subrange(first, bs.len() as int)),
{
    assert(bs.subrange(first, bs.len() as int)[k - first] == bs[k]);
}

/// Once a prefix of the digits exceeds `u64`, the whole number is refused.
proof fn lemma_overflow_is_final(bs: Seq<u8>, first: int, n: int)
    requires
        0 <= first < n <= bs.len(),
        all_digits(bs.subrange(first, n)),
        digits_value(bs.subrange(first, n)) > u64::MAX,
    ensures
        decimal_u64_body(bs.subrange(first, bs.len() as int)) is None,
{
    let digits = bs.subrange(first, bs.len() as int);
    assert(digits.take(n - first) =~= bs.subrange(first, n));
    if all_digits(digits) {
        lemma_digits_value_prefix(digits, n - first);
    }
}

/// The verdict of `decimal_u64` on what follows the optional sign.
pub open spec fn decimal_u64_body(digits: Seq<u8>) -> Option<u64> {
    if digits.len() == 0 || !all_digits(digits) || digits_value(digits) > u64::MAX {
        None
    } else {
        Some(digits_value(digits) as u64)
    }
}

} // verus!

verus! {

/// `pattern` occurs nowhere in `s`.
pub open spec fn pattern_free(s: Seq<char>, pattern: Seq<char>) -> bool {
    forall|k: int| 0 <= k && k + pattern.len() <= s.len() ==> #[trigger] s.subrange(k, k + pattern.len()) != pattern
}

/// Text in which the pattern does not occur is unchanged.
pub proof fn lemma_replace_pattern_free(s: Seq<char>, pattern: Seq<char>, replacement: Seq<char>)
    requires
        pattern.len() > 0,
        pattern_free(s, pattern),
    ensures
        replace_all(s, pattern, replacement) == s,
    decreases s.len(),
{
    if s.len() > 0 {
        if pattern.len() <= s.len() {
            assert(s.take(pattern.len() as int) == s.subrange(0int, 0int + pattern.len()));
        }
        let rest = s.skip(1);
        assert forall|k: int| 0 <= k && k + pattern.len() <= rest.len() implies #[trigger] rest.subrange(k, k + pattern.len()) != pattern by {
            assert(rest.subrange(k, k + pattern.len()) =~= s.subrange(k + 1, k + 1 + pattern.len()));
        }
        lemma_replace_pattern_free(rest, pattern, replacement);
        assert(seq![s[0]] + rest =~= s);
    }
}

} // verus!
