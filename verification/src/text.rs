//! Text at the boundary with the operating system: decimal numbers in byte
//! strings, and UTF-16 as the wide-character interfaces exchange it.

use vstd::prelude::*;
use vstd::utf8::{char_is_scalar, char_u32_cast, decode_utf8, is_scalar, valid_utf8};

verus! {

/// `String::push`: the character is appended, the rest of the string stays.
#[verifier::external_body]
pub(crate) fn push_char(s: &mut String, c: char)
    ensures
        final(s)@ == old(s)@.push(c),
{
    s.push(c)
}

/// `String::from_utf8`: the bytes become a string exactly when they are
/// well-formed UTF-8, and the string then holds the characters they encode.
#[verifier::external_body]
pub(crate) fn string_from_utf8(bytes: Vec<u8>) -> (r: Option<String>)
    ensures
        r is Some <==> valid_utf8(bytes@),
        r matches Some(s) ==> s@ == decode_utf8(bytes@),
{
    String::from_utf8(bytes).ok()
}

/// `char::from_u32`: a number is a character exactly when it is a Unicode
/// scalar value, that is a code point outside the surrogate range.
pub assume_specification[ char::from_u32 ](i: u32) -> (r: Option<char>)
    ensures
        r is Some <==> is_scalar(i),
        r is Some ==> r == Some(i as char),
;

// ---------------------------------------------------------------------------
// Decimal numbers
// ---------------------------------------------------------------------------

/// Whether `b` is an ASCII decimal digit.
pub open spec fn is_digit(b: u8) -> bool {
    48 <= b <= 57
}

/// Whether every byte of `s` is an ASCII decimal digit.
pub open spec fn all_digits(s: Seq<u8>) -> bool {
    forall|i: int| 0 <= i < s.len() ==> is_digit(#[trigger] s[i])
}

/// The number that the digits of `s` write in base ten.
pub open spec fn digits_value(s: Seq<u8>) -> nat
    decreases s.len(),
{
    if s.len() == 0 {
        0
    } else {
        digits_value(s.drop_last()) * 10 + (s.last() - 48) as nat
    }
}

/// `s` without one leading plus sign, if it has one.
pub open spec fn without_sign(s: Seq<u8>) -> Seq<u8> {
    if s.len() > 0 && s[0] == 43 {
        s.drop_first()
    } else {
        s
    }
}

/// The counter index that `s` writes: an optional plus sign, then at least one
/// decimal digit, the whole no larger than `u32::MAX`. Anything else is no
/// index.
pub open spec fn parsed_index(s: Seq<u8>) -> Option<u32> {
    let d = without_sign(s);
    if d.len() > 0 && all_digits(d) && digits_value(d) <= u32::MAX {
        Some(digits_value(d) as u32)
    } else {
        None
    }
}

proof fn lemma_digits_value_prefix(s: Seq<u8>, k: int)
    requires
        0 <= k <= s.len(),
    ensures
        digits_value(s.take(k)) <= digits_value(s),
    decreases s.len() - k,
{
    if k == s.len() {
        assert(s.take(k) =~= s);
    } else {
        lemma_digits_value_prefix(s, k + 1);
        assert(s.take(k + 1).drop_last() =~= s.take(k));
    }
}

/// Reads a counter index from `text`.
pub fn parse_index(text: &[u8]) -> (r: Option<u32>)
    ensures
        r == parsed_index(text@),
{
    let n: usize = text.len();
    let start: usize = if n > 0 && text[0] == 43 { 1 } else { 0 };
    let ghost d = without_sign(text@);
    assert(d =~= text@.subrange(start as int, n as int));
    if start == n {
        return None;
    }
    let mut acc: u64 = 0;
    let mut i: usize = start;
    while i < n
        invariant
            start <= i <= n,
            n == text@.len(),
            d == text@.subrange(start as int, n as int),
            d == without_sign(text@),
            all_digits(d.take(i - start)),
            acc == digits_value(d.take(i - start)),
            acc <= u32::MAX,
        decreases n - i,
    {
        let b: u8 = text[i];
        assert(d[i - start] == b);
        if b < 48 || b > 57 {
            assert(!is_digit(d[i - start]));
            return None;
        }
        proof {
            assert(d.take(i + 1 - start).drop_last() =~= d.take(i - start));
            lemma_digits_value_prefix(d, i + 1 - start);
        }
        acc = acc * 10 + (b - 48) as u64;
        if acc > u32::MAX as u64 {
            return None;
        }
        i += 1;
    }
    assert(d.take(n - start) =~= d);
    Some(acc as u32)
}

/// The character of the decimal digit `d`.
pub open spec fn digit_char(d: nat) -> char
    recommends
        d < 10,
{
    ((48 + d) as u8) as char
}

/// `n` written in base ten, without leading zeros.
pub open spec fn decimal_text(n: nat) -> Seq<char>
    decreases n,
{
    if n < 10 {
        seq![digit_char(n)]
    } else {
        decimal_text(n / 10).push(digit_char(n % 10))
    }
}

/// Appends `n`, written in base ten, to `s`.
pub fn push_decimal(s: &mut String, n: u32)
    ensures
        final(s)@ == old(s)@ + decimal_text(n as nat),
    decreases n,
{
    if n >= 10 {
        push_decimal(s, n / 10);
    }
    let digit: u8 = (n % 10) as u8;
    push_char(s, (48u8 + digit) as char);
    assert(final(s)@ =~= old(s)@ + decimal_text(n as nat));
}

// ---------------------------------------------------------------------------
// UTF-16
// ---------------------------------------------------------------------------

/// Whether `u` is the first unit of a surrogate pair.
pub open spec fn is_high_surrogate(u: u16) -> bool {
    0xD800 <= u <= 0xDBFF
}

/// Whether `u` is the second unit of a surrogate pair.
pub open spec fn is_low_surrogate(u: u16) -> bool {
    0xDC00 <= u <= 0xDFFF
}

/// The UTF-16 units that write the character `c`: one unit below U+10000, a
/// surrogate pair from there on.
pub open spec fn utf16_of_char(c: char) -> Seq<u16> {
    let v = c as u32;
    if v < 0x10000 {
        seq![v as u16]
    } else {
        seq![
            (0xD800 + (v - 0x10000) / 0x400) as u16,
            (0xDC00 + (v - 0x10000) % 0x400) as u16,
        ]
    }
}

/// The UTF-16 units that write `text`.
pub open spec fn utf16_units(text: Seq<char>) -> Seq<u16>
    decreases text.len(),
{
    if text.len() == 0 {
        seq![]
    } else {
        utf16_of_char(text[0]) + utf16_units(text.drop_first())
    }
}

/// The character that the surrogate pair `high`, `low` writes.
pub open spec fn char_of_pair(high: u16, low: u16) -> char
    recommends
        is_high_surrogate(high),
        is_low_surrogate(low),
{
    ((0x10000 + (high - 0xD800) * 0x400 + (low - 0xDC00)) as u32) as char
}

/// The text that `units` write in UTF-16, or `None` where they are not
/// well-formed: a surrogate that is not the first of a pair followed by the
/// second of one.
pub open spec fn utf16_text(units: Seq<u16>) -> Option<Seq<char>>
    decreases units.len(),
{
    if units.len() == 0 {
        Some(seq![])
    } else if !is_high_surrogate(units[0]) && !is_low_surrogate(units[0]) {
        match utf16_text(units.skip(1)) {
            Some(rest) => Some(seq![(units[0] as u32) as char] + rest),
            None => None,
        }
    } else if is_high_surrogate(units[0]) && units.len() >= 2 && is_low_surrogate(units[1]) {
        match utf16_text(units.skip(2)) {
            Some(rest) => Some(seq![char_of_pair(units[0], units[1])] + rest),
            None => None,
        }
    } else {
        None
    }
}

/// Encoding never loses text: what `utf16_units` writes, `utf16_text` reads
/// back unchanged.
pub proof fn lemma_utf16_round_trip(text: Seq<char>)
    ensures
        utf16_text(utf16_units(text)) == Some(text),
    decreases text.len(),
{
    if text.len() > 0 {
        let c = text[0];
        let v: u32 = c as u32;
        let rest = text.drop_first();
        let units = utf16_units(text);
        lemma_utf16_round_trip(rest);
        if v < 0x10000 {
            assert(units.skip(1) =~= utf16_units(rest));
            char_u32_cast(c, units[0] as u32);
        } else {
            assert(units.skip(2) =~= utf16_units(rest));
            let w: int = (v - 0x10000) as int;
            char_is_scalar(c);
            assert(0 <= w <= 0xFFFFF);
            assert(units[0] == 0xD800 + w / 0x400);
            assert(units[1] == 0xDC00 + w % 0x400);
            assert((w / 0x400) * 0x400 + w % 0x400 == w);
            char_u32_cast(c, (0x10000 + (units[0] - 0xD800) * 0x400 + (units[1] - 0xDC00)) as u32);
        }
        assert(seq![c] + rest =~= text);
    }
}

/// Writes `s` in UTF-16.
pub fn encode_utf16(s: &str) -> (units: Vec<u16>)
    ensures
        units@ == utf16_units(s@),
{
    let mut units: Vec<u16> = Vec::new();
    assert(s@.skip(0) =~= s@);
    assert(units@ + utf16_units(s@) =~= utf16_units(s@));
    for c in it: s.chars()
        invariant
            it.seq() == s@,
            utf16_units(s@) == units@ + utf16_units(s@.skip(it.index() as int)),
    {
        let v: u32 = c as u32;
        proof {
            let tail = s@.skip(it.index() as int);
            assert(tail[0] == c);
            assert(tail.drop_first() =~= s@.skip(it.index() + 1));
        }
        if v < 0x10000 {
            units.push(v as u16);
        } else {
            let w: u32 = v - 0x10000;
            units.push((0xD800 + w / 0x400) as u16);
            units.push((0xDC00 + w % 0x400) as u16);
        }
        assert(utf16_units(s@) =~= units@ + utf16_units(s@.skip(it.index() + 1)));
    }
    assert(s@.skip(s@.len() as int) =~= Seq::<char>::empty());
    assert(units@ + Seq::<u16>::empty() =~= units@);
    units
}

/// Reads UTF-16: the text that `units` write, or `None` where they are not
/// well-formed.
pub fn decode_utf16(units: &[u16]) -> (r: Option<String>)
    ensures
        r is Some <==> utf16_text(units@) is Some,
        r matches Some(s) ==> Some(s@) == utf16_text(units@),
{
    let n: usize = units.len();
    let mut out = String::new();
    let mut i: usize = 0;
    assert(units@.skip(0) =~= units@);
    assert(forall|rest: Seq<char>| out@ + rest =~= rest);
    while i < n
        invariant
            i <= n,
            n == units@.len(),
            utf16_text(units@) == match utf16_text(units@.skip(i as int)) {
                Some(rest) => Some(out@ + rest),
                None => None,
            },
        decreases n - i,
    {
        let u: u16 = units[i];
        let ghost tail = units@.skip(i as int);
        assert(tail[0] == u);
        if u < 0xD800 || u > 0xDFFF {
            // A unit outside the surrogate range is a scalar value.
            match char::from_u32(u as u32) {
                Some(c) => {
                    push_char(&mut out, c);
                },
                None => {
                    return None;
                },
            }
            proof {
                assert(tail.skip(1) =~= units@.skip(i + 1));
            }
            i += 1;
        } else if u <= 0xDBFF && i + 1 < n && 0xDC00 <= units[i + 1] && units[i + 1] <= 0xDFFF {
            let low: u16 = units[i + 1];
            assert(tail[1] == low);
            let v: u32 = 0x10000 + (u as u32 - 0xD800) * 0x400 + (low as u32 - 0xDC00);
            // A pair always writes a scalar value, from U+10000 to U+10FFFF.
            match char::from_u32(v) {
                Some(c) => {
                    push_char(&mut out, c);
                },
                None => {
                    return None;
                },
            }
            proof {
                assert(tail.skip(2) =~= units@.skip(i + 2));
            }
            i += 2;
        } else {
            return None;
        }
    }
    assert(units@.skip(n as int) =~= Seq::<u16>::empty());
    Some(out)
}

// ---------------------------------------------------------------------------
// Searching
// ---------------------------------------------------------------------------

/// Whether `needle` stands in `text` as a run of consecutive characters. The
/// empty run stands in every text.
pub open spec fn has_run(text: Seq<char>, needle: Seq<char>) -> bool {
    exists|at: int| #[trigger] run_at(text, needle, at)
}

/// Whether `needle` stands in `text` from position `at` on.
pub open spec fn run_at(text: Seq<char>, needle: Seq<char>, at: int) -> bool {
    0 <= at && at + needle.len() <= text.len() && text.subrange(at, at + needle.len()) == needle
}

/// The characters of `s`.
pub fn chars_of(s: &str) -> (chars: Vec<char>)
    ensures
        chars@ == s@,
{
    let mut chars: Vec<char> = Vec::new();
    for c in it: s.chars()
        invariant
            it.seq() == s@,
            chars@ == s@.take(it.index() as int),
    {
        chars.push(c);
        assert(chars@ =~= s@.take(it.index() + 1));
    }
    assert(s@.take(s@.len() as int) =~= s@);
    chars
}

/// Whether `needle` stands in `text` from position `at` on.
fn matches_at(text: &Vec<char>, needle: &Vec<char>, at: usize) -> (found: bool)
    requires
        at + needle.len() <= text.len(),
    ensures
        found == run_at(text@, needle@, at as int),
{
    let m: usize = needle.len();
    let mut k: usize = 0;
    while k < m
        invariant
            k <= m,
            m == needle.len(),
            at + m <= text.len(),
            forall|j: int| 0 <= j < k ==> text@[at + j] == needle@[j],
        decreases m - k,
    {
        if text[at + k] != needle[k] {
            assert(text@.subrange(at as int, at + m)[k as int] == text@[at + k]);
            return false;
        }
        k += 1;
    }
    assert(text@.subrange(at as int, at + m) =~= needle@);
    true
}

/// Computes `has_run`.
pub fn contains_run(text: &Vec<char>, needle: &Vec<char>) -> (found: bool)
    ensures
        found == has_run(text@, needle@),
{
    let n: usize = text.len();
    let m: usize = needle.len();
    if m > n {
        assert(forall|at: int| !run_at(text@, needle@, at));
        return false;
    }
    if m == 0 {
        assert(text@.subrange(0, 0) =~= needle@);
        assert(run_at(text@, needle@, 0));
        return true;
    }
    let last: usize = n - m;
    let mut at: usize = 0;
    while at <= last
        invariant
            at <= last + 1,
            last == n - m,
            m >= 1,
            n == text.len(),
            m == needle.len(),
            forall|j: int| 0 <= j < at ==> !run_at(text@, needle@, j),
        decreases last + 1 - at,
    {
        if matches_at(text, needle, at) {
            return true;
        }
        at += 1;
    }
    assert(forall|j: int| !run_at(text@, needle@, j));
    false
}

} // verus!
