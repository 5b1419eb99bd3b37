//! The grammar of the modem's answers, read the way the AT command parser
//! reads them: a cursor walks the buffer, literal tags must match byte for
//! byte, fields are cut at fixed delimiters, and spaces after every item are
//! skipped. Text after the last expected item is ignored.
use vstd::prelude::*;
use vstd::utf8::{encode_utf8, valid_utf8};
use crate::text::string_from_utf8;

verus! {

pub const SPACE: u8 = 32;
pub const COMMA: u8 = 44;
pub const QUOTE: u8 = 34;
pub const PLUS: u8 = 43;
pub const MINUS: u8 = 45;
pub const DIGIT_ZERO: u8 = 48;
pub const DIGIT_NINE: u8 = 57;
pub const DELETE: u8 = 127;

/// The most bytes that an integer field may have (sign included).
pub const MAX_INT_DIGITS: usize = 11;

// ---------------------------------------------------------------------------
// Cursor steps
// ---------------------------------------------------------------------------

/// The position after the run of spaces that starts at `i`.
pub open spec fn skip_spaces(buf: Seq<u8>, i: int) -> int
    decreases buf.len() - i,
{
    if 0 <= i < buf.len() && buf[i] == SPACE {
        skip_spaces(buf, i + 1)
    } else {
        i
    }
}

/// Matching the literal `tag` at `i`: the position after the tag and the
/// spaces behind it, or `None` where the bytes differ or the buffer ends.
pub open spec fn after_tag(buf: Seq<u8>, i: int, tag: Seq<u8>) -> Option<int> {
    if buf.len() - i < tag.len() {
        None
    } else if buf.subrange(i, i + tag.len()) == tag {
        Some(skip_spaces(buf, i + tag.len()))
    } else {
        None
    }
}

/// Steps over one comma directly at `j`, if there is one.
pub open spec fn after_separator(buf: Seq<u8>, j: int) -> int {
    if 0 <= j < buf.len() && buf[j] == COMMA {
        j + 1
    } else {
        j
    }
}

pub open spec fn is_digit(b: u8) -> bool {
    DIGIT_ZERO <= b <= DIGIT_NINE
}

/// Bytes that an integer field is made of: digits and signs.
pub open spec fn is_int_byte(b: u8) -> bool {
    is_digit(b) || b == MINUS || b == PLUS
}

/// The end of the run of integer bytes that starts at `i`.
pub open spec fn int_run_end(buf: Seq<u8>, i: int) -> int
    decreases buf.len() - i,
{
    if 0 <= i < buf.len() && is_int_byte(buf[i]) {
        int_run_end(buf, i + 1)
    } else {
        i
    }
}

pub open spec fn all_digits(s: Seq<u8>) -> bool {
    forall|k: int| 0 <= k < s.len() ==> is_digit(#[trigger] s[k])
}

/// The number that a string of decimal digits denotes.
pub open spec fn digits_value(s: Seq<u8>) -> nat
    decreases s.len(),
{
    if s.len() == 0 {
        0
    } else {
        digits_value(s.drop_last()) * 10 + (s.last() - DIGIT_ZERO) as nat
    }
}

/// A decimal integer: at most eleven bytes, an optional leading minus, then
/// digits only (a lone minus reads as zero). Values outside `i32` are refused.
pub open spec fn decimal_int(s: Seq<u8>) -> Option<i32> {
    if s.len() == 0 || s.len() > MAX_INT_DIGITS {
        None
    } else {
        let negative = s[0] == MINUS;
        let body = if negative { s.drop_first() } else { s };
        let value: int = if negative { -digits_value(body) } else { digits_value(body) as int };
        if all_digits(body) && i32::MIN <= value <= i32::MAX {
            Some(value as i32)
        } else {
            None
        }
    }
}

/// An integer field at `i`: the run of digit and sign bytes, one leading plus
/// dropped. An empty run is an absent value. The cursor moves past the run, a
/// following comma and spaces. `None` where the run is not a number.
pub open spec fn int_field(buf: Seq<u8>, i: int) -> Option<(int, Option<i32>)> {
    let end = int_run_end(buf, i);
    let next = skip_spaces(buf, after_separator(buf, end));
    if end == i {
        Some((next, None))
    } else {
        let run = buf.subrange(i, end);
        let digits = if run[0] == PLUS { run.drop_first() } else { run };
        match decimal_int(digits) {
            Some(v) => Some((next, Some(v))),
            None => None,
        }
    }
}

/// An integer field that must be present.
pub open spec fn required_int_field(buf: Seq<u8>, i: int) -> Option<(int, i32)> {
    match int_field(buf, i) {
        Some((next, Some(v))) => Some((next, v)),
        _ => None,
    }
}

/// Scans from `j` counting quote bytes (`quotes` seen so far); stops on the
/// byte that brings the count to two, or at the end of the buffer.
pub open spec fn quote_scan(buf: Seq<u8>, j: int, quotes: int) -> int
    decreases buf.len() - j,
{
    if 0 <= j < buf.len() {
        let q = if buf[j] == QUOTE { quotes + 1 } else { quotes };
        if q < 2 {
            quote_scan(buf, j + 1, q)
        } else {
            j
        }
    } else {
        j
    }
}

/// A quoted string field at `i`: everything strictly between the byte at `i`
/// and the second quote byte counted from `i`, which must exist; the text must
/// be UTF-8. The cursor moves past the closing quote, a comma and spaces.
pub open spec fn string_field(buf: Seq<u8>, i: int) -> Option<(int, Seq<u8>)> {
    let close = quote_scan(buf, i, 0);
    if close >= buf.len() {
        None
    } else {
        let text = buf.subrange(i + 1, close);
        if valid_utf8(text) {
            Some((skip_spaces(buf, after_separator(buf, close + 1)), text))
        } else {
            None
        }
    }
}

/// ASCII control bytes, which end an unquoted string.
pub open spec fn is_control(b: u8) -> bool {
    b < SPACE || b == DELETE
}

/// The first control byte at or after `i`, or the end of the buffer.
pub open spec fn raw_end(buf: Seq<u8>, i: int) -> int
    decreases buf.len() - i,
{
    if 0 <= i < buf.len() && !is_control(buf[i]) {
        raw_end(buf, i + 1)
    } else {
        i
    }
}

/// An unquoted string at `i`: everything up to the next control byte, which
/// must be UTF-8. The cursor stops on the control byte (after spaces).
pub open spec fn raw_string_field(buf: Seq<u8>, i: int) -> Option<(int, Seq<u8>)> {
    let end = raw_end(buf, i);
    let text = buf.subrange(i, end);
    if valid_utf8(text) {
        Some((skip_spaces(buf, end), text))
    } else {
        None
    }
}

// ---------------------------------------------------------------------------
// How the cursor steps read well-formed fields
// ---------------------------------------------------------------------------

/// Text without quote bytes.
pub open spec fn quote_free(s: Seq<u8>) -> bool {
    forall|k: int| 0 <= k < s.len() ==> #[trigger] s[k] != QUOTE
}

/// Skipping spaces stops at once on a byte that is not a space, and at the end.
pub proof fn lemma_skip_spaces_stops(buf: Seq<u8>, i: int)
    requires
        0 <= i <= buf.len(),
        i < buf.len() ==> buf[i] != SPACE,
    ensures
        skip_spaces(buf, i) == i,
{
}

/// Skipping spaces steps over one space before a byte that is not a space.
pub proof fn lemma_skip_one_space(buf: Seq<u8>, i: int)
    requires
        0 <= i,
        i + 1 < buf.len(),
        buf[i] == SPACE,
        buf[i + 1] != SPACE,
    ensures
        skip_spaces(buf, i) == i + 1,
{
    lemma_skip_spaces_stops(buf, i + 1);
}

/// A tag that stands at `i` is matched there.
pub proof fn lemma_after_tag_matches(buf: Seq<u8>, i: int, tag: Seq<u8>)
    requires
        0 <= i,
        i + tag.len() <= buf.len(),
        buf.subrange(i, i + tag.len()) == tag,
    ensures
        after_tag(buf, i, tag) == Some(skip_spaces(buf, i + tag.len())),
{
}

proof fn lemma_int_run_end(buf: Seq<u8>, i: int, end: int)
    requires
        0 <= i <= end <= buf.len(),
        forall|k: int| i <= k < end ==> is_int_byte(#[trigger] buf[k]),
        end < buf.len() ==> !is_int_byte(buf[end]),
    ensures
        int_run_end(buf, i) == end,
    decreases end - i,
{
    if i < end {
        lemma_int_run_end(buf, i + 1, end);
    }
}

/// An integer written in decimal at `i`, followed by a byte that cannot be
/// part of a number (or by the end), is read as that integer.
pub proof fn lemma_int_field_reads_decimal(buf: Seq<u8>, i: int, v: i32)
    requires
        0 <= i,
        i + crate::modem::command::decimal_text(v as int).len() <= buf.len(),
        buf.subrange(i, i + crate::modem::command::decimal_text(v as int).len())
            == crate::modem::command::decimal_text(v as int),
        i + crate::modem::command::decimal_text(v as int).len() < buf.len()
            ==> !is_int_byte(buf[i + crate::modem::command::decimal_text(v as int).len()]),
    ensures
        ({
            let end = i + crate::modem::command::decimal_text(v as int).len();
            &&& int_field(buf, i) == Some((skip_spaces(buf, after_separator(buf, end)), Some(v)))
            &&& required_int_field(buf, i) == Some((skip_spaces(buf, after_separator(buf, end)), v))
        }),
{
    let d = crate::modem::command::decimal_text(v as int);
    let end = i + d.len();
    crate::modem::command::lemma_decimal_text_bytes(v);
    assert forall|k: int| i <= k < end implies is_int_byte(#[trigger] buf[k]) by {
        assert(buf[k] == buf.subrange(i, end)[k - i]);
    }
    lemma_int_run_end(buf, i, end);
    let run = buf.subrange(i, end);
    assert(run[0] == d[0]);
    crate::modem::command::lemma_decimal_round_trip(v);
}

proof fn lemma_quote_scan_closes(buf: Seq<u8>, j: int, close: int)
    requires
        0 <= j <= close < buf.len(),
        buf[close] == QUOTE,
        forall|k: int| j <= k < close ==> #[trigger] buf[k] != QUOTE,
    ensures
        quote_scan(buf, j, 1) == close,
    decreases close - j,
{
    if j < close {
        lemma_quote_scan_closes(buf, j + 1, close);
    }
}

/// A quoted text without quote bytes at `i` is read as that text.
pub proof fn lemma_string_field_reads_quoted(buf: Seq<u8>, i: int, s: Seq<u8>)
    requires
        0 <= i,
        i + s.len() + 2 <= buf.len(),
        buf[i] == QUOTE,
        buf.subrange(i + 1, i + 1 + s.len()) == s,
        buf[i + 1 + s.len()] == QUOTE,
        quote_free(s),
        valid_utf8(s),
    ensures
        string_field(buf, i) == Some((skip_spaces(buf, after_separator(buf, i + s.len() + 2)), s)),
{
    let close = i + 1 + s.len();
    assert forall|k: int| i + 1 <= k < close implies #[trigger] buf[k] != QUOTE by {
        assert(buf[k] == buf.subrange(i + 1, close)[k - (i + 1)]);
    }
    lemma_quote_scan_closes(buf, i + 1, close);
    assert(quote_scan(buf, i, 0) == quote_scan(buf, i + 1, 1));
}

// ---------------------------------------------------------------------------
// Executable steps
// ---------------------------------------------------------------------------

fn skip_spaces_at(buf: &[u8], i: usize) -> (j: usize)
    requires
        i <= buf@.len(),
    ensures
        j == skip_spaces(buf@, i as int),
        i <= j <= buf@.len(),
{
    let mut j = i;
    while j < buf.len() && buf[j] == SPACE
        invariant
            i <= j <= buf@.len(),
            skip_spaces(buf@, j as int) == skip_spaces(buf@, i as int),
        decreases buf@.len() - j,
    {
        j = j + 1;
    }
    j
}

/// Matches the literal `tag` at position `i` of `buf`.
pub fn expect_tag(buf: &[u8], i: usize, tag: &[u8]) -> (next: Option<usize>)
    requires
        i <= buf@.len(),
    ensures
        next is Some <==> after_tag(buf@, i as int, tag@) is Some,
        next matches Some(j) ==> after_tag(buf@, i as int, tag@) == Some(j as int) && j <= buf@.len(),
{
    if buf.len() - i < tag.len() {
        return None;
    }
    let mut k: usize = 0;
    while k < tag.len()
        invariant
            k <= tag@.len(),
            i <= buf@.len(),
            i + tag@.len() <= buf@.len(),
            forall|m: int| 0 <= m < k ==> buf@[i + m] == tag@[m],
        decreases tag@.len() - k,
    {
        assert(k < tag@.len());
        assert(i + k < buf@.len());
        assert(buf@.len() == buf.len());
        let pos = i + k;
        if buf[pos] != tag[k] {
            assert(buf@.subrange(i as int, i + tag@.len())[k as int] != tag@[k as int]);
            return None;
        }
        k = k + 1;
    }
    assert(buf@.subrange(i as int, i + tag@.len()) =~= tag@);
    Some(skip_spaces_at(buf, i + tag.len()))
}

fn separator_at(buf: &[u8], j: usize) -> (next: usize)
    requires
        j <= buf@.len(),
    ensures
        next == after_separator(buf@, j as int),
        next <= buf@.len(),
{
    if j < buf.len() && buf[j] == COMMA {
        j + 1
    } else {
        j
    }
}

/// `10` to the power `n`.
pub open spec fn pow10(n: nat) -> nat
    decreases n,
{
    if n == 0 {
        1
    } else {
        10 * pow10((n - 1) as nat)
    }
}

/// Reads `buf[lo..hi]` as a decimal integer.
fn decimal_int_at(buf: &[u8], lo: usize, hi: usize) -> (value: Option<i32>)
    requires
        lo <= hi <= buf@.len(),
    ensures
        value == decimal_int(buf@.subrange(lo as int, hi as int)),
{
    let ghost s = buf@.subrange(lo as int, hi as int);
    if hi == lo || hi - lo > MAX_INT_DIGITS {
        return None;
    }
    assert(s[0] == buf@[lo as int]);
    let negative = buf[lo] == MINUS;
    let first = if negative { lo + 1 } else { lo };
    let ghost body = if negative { s.drop_first() } else { s };
    assert(body =~= buf@.subrange(first as int, hi as int));
    let mut acc: u64 = 0;
    let mut k: usize = first;
    while k < hi
        invariant
            lo <= first <= k <= hi <= buf@.len(),
            hi - first <= MAX_INT_DIGITS,
            0 < s.len() <= MAX_INT_DIGITS,
            s == buf@.subrange(lo as int, hi as int),
            body == (if s[0] == MINUS { s.drop_first() } else { s }),
            body == buf@.subrange(first as int, hi as int),
            all_digits(buf@.subrange(first as int, k as int)),
            acc == digits_value(buf@.subrange(first as int, k as int)),
            acc < pow10((k - first) as nat),
        decreases hi - k,
    {
        let b = buf[k];
        if b < DIGIT_ZERO || b > DIGIT_NINE {
            assert(body[k - first] == b);
            assert(!is_digit(body[k - first]));
            assert(!all_digits(body));
            return None;
        }
        let ghost prev = buf@.subrange(first as int, k as int);
        let ghost next = buf@.subrange(first as int, k + 1);
        assert(next.drop_last() =~= prev);
        assert(pow10((k + 1 - first) as nat) == 10 * pow10((k - first) as nat));
        assert(pow10((k - first) as nat) <= pow10(10)) by {
            lemma_pow10_monotone((k - first) as nat, 10);
        }
        assert(pow10(10) == 10000000000) by {
            reveal_with_fuel(pow10, 11);
        }
        assert(acc * 10 + (b - DIGIT_ZERO) < 10 * pow10((k - first) as nat)) by (nonlinear_arith)
            requires acc < pow10((k - first) as nat), b - DIGIT_ZERO <= 9;
        acc = acc * 10 + (b - DIGIT_ZERO) as u64;
        k = k + 1;
    }
    assert(buf@.subrange(first as int, k as int) =~= body);
    if negative {
        if acc <= 2147483648 {
            let v: i64 = 0 - (acc as i64);
            Some(v as i32)
        } else {
            None
        }
    } else {
        if acc <= 2147483647 {
            Some(acc as i32)
        } else {
            None
        }
    }
}

proof fn lemma_pow10_monotone(a: nat, b: nat)
    requires
        a <= b,
    ensures
        pow10(a) <= pow10(b),
    decreases b,
{
    if a < b {
        lemma_pow10_monotone(a, (b - 1) as nat);
    }
}

/// Reads an integer field at `i` (absent value allowed).
pub fn read_int_field(buf: &[u8], i: usize) -> (field: Option<(usize, Option<i32>)>)
    requires
        i <= buf@.len(),
    ensures
        field is Some <==> int_field(buf@, i as int) is Some,
        field matches Some(f) ==> int_field(buf@, i as int) == Some((f.0 as int, f.1)) && f.0 <= buf@.len(),
{
    let mut end = i;
    while end < buf.len() && (buf[end] == MINUS || buf[end] == PLUS || (DIGIT_ZERO <= buf[end] && buf[end] <= DIGIT_NINE))
        invariant
            i <= end <= buf@.len(),
            int_run_end(buf@, end as int) == int_run_end(buf@, i as int),
        decreases buf@.len() - end,
    {
        end = end + 1;
    }
    let next = skip_spaces_at(buf, separator_at(buf, end));
    if end == i {
        return Some((next, None));
    }
    let start = if buf[i] == PLUS { i + 1 } else { i };
    proof {
        let run = buf@.subrange(i as int, end as int);
        let digits = if run[0] == PLUS { run.drop_first() } else { run };
        assert(digits =~= buf@.subrange(start as int, end as int));
    }
    match decimal_int_at(buf, start, end) {
        Some(v) => Some((next, Some(v))),
        None => None,
    }
}

/// Reads an integer field at `i` that must be present.
pub fn read_required_int_field(buf: &[u8], i: usize) -> (field: Option<(usize, i32)>)
    requires
        i <= buf@.len(),
    ensures
        field is Some <==> required_int_field(buf@, i as int) is Some,
        field matches Some(f) ==> required_int_field(buf@, i as int) == Some((f.0 as int, f.1)) && f.0 <= buf@.len(),
{
    match read_int_field(buf, i) {
        Some((next, Some(v))) => Some((next, v)),
        _ => None,
    }
}

/// A copy of `buf[lo..hi]`, decoded as UTF-8 text.
fn text_at(buf: &[u8], lo: usize, hi: usize) -> (text: Option<String>)
    requires
        lo <= hi <= buf@.len(),
    ensures
        text is Some <==> valid_utf8(buf@.subrange(lo as int, hi as int)),
        text matches Some(s) ==> encode_utf8(s@) == buf@.subrange(lo as int, hi as int),
{
    let mut bytes: Vec<u8> = Vec::new();
    bytes.extend_from_slice(&buf[lo..hi]);
    assert(bytes@ =~= buf@.subrange(lo as int, hi as int));
    string_from_utf8(bytes)
}

proof fn lemma_quote_scan_advances(buf: Seq<u8>, j: int, quotes: int)
    ensures
        quote_scan(buf, j, quotes) >= j,
    decreases buf.len() - j,
{
    if 0 <= j < buf.len() {
        let q = if buf[j] == QUOTE { quotes + 1 } else { quotes };
        if q < 2 {
            lemma_quote_scan_advances(buf, j + 1, q);
        }
    }
}

/// Reads a quoted string field at `i`.
pub fn read_string_field(buf: &[u8], i: usize) -> (field: Option<(usize, String)>)
    requires
        i <= buf@.len(),
    ensures
        field is Some <==> string_field(buf@, i as int) is Some,
        field matches Some(f) ==> {
            &&& string_field(buf@, i as int) matches Some(g)
            &&& f.0 == g.0
            &&& encode_utf8(f.1@) == g.1
            &&& f.0 <= buf@.len()
        },
{
    let mut j = i;
    let mut quotes: u8 = 0;
    while j < buf.len()
        invariant_except_break
            i <= j <= buf@.len(),
            quotes < 2,
            quote_scan(buf@, j as int, quotes as int) == quote_scan(buf@, i as int, 0),
        ensures
            i <= j <= buf@.len(),
            j == quote_scan(buf@, i as int, 0),
        decreases buf@.len() - j,
    {
        let q = if buf[j] == QUOTE { quotes + 1 } else { quotes };
        if q >= 2 {
            break;
        }
        quotes = q;
        j = j + 1;
    }
    if j >= buf.len() {
        return None;
    }
    assert(j >= i + 1) by {
        if j == i {
            lemma_quote_scan_advances(buf@, i + 1, if buf@[i as int] == QUOTE { 1 } else { 0 });
        }
    }
    match text_at(buf, i + 1, j) {
        Some(text) => {
            let next = skip_spaces_at(buf, separator_at(buf, j + 1));
            Some((next, text))
        },
        None => None,
    }
}

/// Reads an unquoted string at `i`.
pub fn read_raw_string(buf: &[u8], i: usize) -> (field: Option<(usize, String)>)
    requires
        i <= buf@.len(),
    ensures
        field is Some <==> raw_string_field(buf@, i as int) is Some,
        field matches Some(f) ==> {
            &&& raw_string_field(buf@, i as int) matches Some(g)
            &&& f.0 == g.0
            &&& encode_utf8(f.1@) == g.1
            &&& f.0 <= buf@.len()
        },
{
    let mut end = i;
    while end < buf.len() && !(buf[end] < SPACE || buf[end] == DELETE)
        invariant
            i <= end <= buf@.len(),
            raw_end(buf@, end as int) == raw_end(buf@, i as int),
        decreases buf@.len() - end,
    {
        end = end + 1;
    }
    match text_at(buf, i, end) {
        Some(text) => Some((skip_spaces_at(buf, end), text)),
        None => None,
    }
}

} // verus!
