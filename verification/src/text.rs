//! Byte-level text helpers: words, decimal numbers and conversions between
//! bytes and strings.

use vstd::prelude::*;
use vstd::utf8::{decode_utf8, valid_utf8};

verus! {

/// ASCII white space: space, tab, line feed, vertical tab, form feed and
/// carriage return.
pub open spec fn is_space(b: u8) -> bool {
    b == 32 || (9 <= b && b <= 13)
}

/// An ASCII decimal digit.
pub open spec fn is_digit(b: u8) -> bool {
    48 <= b && b <= 57
}

/// The characters whose code points are the given bytes.
pub open spec fn byte_chars(s: Seq<u8>) -> Seq<char> {
    Seq::new(s.len(), |i: int| s[i] as char)
}

/// `String::push` appends one character to the end of the string.
pub assume_specification[ String::push ](s: &mut String, c: char)
    ensures
        final(s)@ == old(s)@.push(c),
;

/// Calls `String::from_utf8`, which accepts exactly the byte sequences that
/// are well-formed UTF-8 and then yields the text they encode.
#[verifier::external_body]
pub(crate) fn utf8_text(bytes: Vec<u8>) -> (text: Option<String>)
    ensures
        text is Some <==> valid_utf8(bytes@),
        text matches Some(t) ==> t@ == decode_utf8(bytes@),
{
    String::from_utf8(bytes).ok()
}

/// Tells whether a byte is ASCII white space.
pub fn is_space_byte(b: u8) -> (r: bool)
    ensures
        r == is_space(b),
{
    b == 32 || (9 <= b && b <= 13)
}

/// Builds the string whose characters have the code points of `bytes`.
pub fn string_of_bytes(bytes: &[u8]) -> (text: String)
    ensures
        text@ == byte_chars(bytes@),
{
    let mut text = String::new();
    let mut i: usize = 0;
    while i < bytes.len()
        invariant
            i <= bytes.len(),
            text@ == byte_chars(bytes@.subrange(0, i as int)),
        decreases bytes.len() - i,
    {
        text.push(bytes[i] as char);
        i += 1;
        assert(byte_chars(bytes@.subrange(0, i as int)) =~= byte_chars(
            bytes@.subrange(0, i - 1),
        ).push(bytes@[i - 1] as char));
    }
    assert(bytes@.subrange(0, i as int) =~= bytes@);
    text
}

/// Copies `bytes[from..to]` into a vector of its own.
pub(crate) fn copy_range(bytes: &[u8], from: usize, to: usize) -> (out: Vec<u8>)
    requires
        from <= to <= bytes.len(),
    ensures
        out@ == bytes@.subrange(from as int, to as int),
{
    let mut out: Vec<u8> = Vec::new();
    let mut i: usize = from;
    while i < to
        invariant
            from <= i <= to <= bytes.len(),
            out@ == bytes@.subrange(from as int, i as int),
        decreases to - i,
    {
        out.push(bytes[i]);
        i += 1;
        assert(bytes@.subrange(from as int, i as int) =~= bytes@.subrange(
            from as int,
            i - 1,
        ).push(bytes@[i - 1]));
    }
    out
}

/// The first index at or after `from` that holds no white space, or the
/// length of `s` when only white space is left.
pub open spec fn skip_spaces(s: Seq<u8>, from: int) -> int
    decreases s.len() - from,
{
    if from < 0 || from >= s.len() {
        s.len() as int
    } else if !is_space(s[from]) {
        from
    } else {
        skip_spaces(s, from + 1)
    }
}

/// The first index at or after `from` that holds white space, or the length
/// of `s` when the word runs to the end.
pub open spec fn skip_word(s: Seq<u8>, from: int) -> int
    decreases s.len() - from,
{
    if from < 0 || from >= s.len() {
        s.len() as int
    } else if is_space(s[from]) {
        from
    } else {
        skip_word(s, from + 1)
    }
}

/// The maximal runs of non-space bytes of `s` that start at or after `from`,
/// in order.
pub open spec fn words_from(s: Seq<u8>, from: int) -> Seq<Seq<u8>>
    decreases s.len() - from,
{
    let start = skip_spaces(s, from);
    let end = skip_word(s, start);
    if 0 <= from <= start < end <= s.len() {
        seq![s.subrange(start, end)] + words_from(s, end)
    } else {
        Seq::empty()
    }
}

/// The white-space separated words of `s`, in order.
pub open spec fn words(s: Seq<u8>) -> Seq<Seq<u8>> {
    words_from(s, 0)
}

/// Splits a line into its white-space separated words.
pub fn split_words(line: &[u8]) -> (out: Vec<Vec<u8>>)
    ensures
        out@.len() == words(line@).len(),
        forall|k: int| 0 <= k < out@.len() ==> (#[trigger] out@[k])@ == words(line@)[k],
{
    let mut out: Vec<Vec<u8>> = Vec::new();
    let mut i: usize = 0;
    let ghost mut done: Seq<Seq<u8>> = Seq::empty();
    loop
        invariant
            i <= line.len(),
            done.len() == out@.len(),
            forall|k: int| 0 <= k < out@.len() ==> (#[trigger] out@[k])@ == done[k],
            done + words_from(line@, i as int) == words(line@),
        ensures
            done.len() == out@.len(),
            forall|k: int| 0 <= k < out@.len() ==> (#[trigger] out@[k])@ == done[k],
            done == words(line@),
        decreases line.len() - i,
    {
        let ghost entry = i as int;
        while i < line.len() && is_space_byte(line[i])
            invariant
                entry <= i <= line.len(),
                skip_spaces(line@, i as int) == skip_spaces(line@, entry),
            decreases line.len() - i,
        {
            i += 1;
        }
        if i >= line.len() {
            assert(words_from(line@, entry) == Seq::<Seq<u8>>::empty());
            assert(done + Seq::<Seq<u8>>::empty() =~= done);
            break;
        }
        let start = i;
        assert(skip_spaces(line@, entry) == start);
        while i < line.len() && !is_space_byte(line[i])
            invariant
                start <= i <= line.len(),
                start < line.len(),
                !is_space(line@[start as int]),
                skip_word(line@, i as int) == skip_word(line@, start as int),
            decreases line.len() - i,
        {
            i += 1;
        }
        assert(skip_word(line@, start as int) == i);
        assert(start < i);
        let word = copy_range(line, start, i);
        proof {
            assert(words_from(line@, entry) == seq![line@.subrange(start as int, i as int)]
                + words_from(line@, i as int));
            assert(done.push(word@) + words_from(line@, i as int) =~= done + words_from(
                line@,
                entry,
            ));
            done = done.push(word@);
        }
        out.push(word);
    }
    out
}

/// The value of a run of decimal digits, most significant digit first.
pub open spec fn digits_value(s: Seq<u8>) -> nat
    decreases s.len(),
{
    if s.len() == 0 {
        0
    } else {
        digits_value(s.drop_last()) * 10 + (s.last() - 48) as nat
    }
}

/// Every byte of `s` is a decimal digit.
pub open spec fn all_digits(s: Seq<u8>) -> bool {
    forall|i: int| 0 <= i < s.len() ==> is_digit(#[trigger] s[i])
}

/// `s` without one leading plus sign.
pub open spec fn without_plus(s: Seq<u8>) -> Seq<u8> {
    if s.len() > 0 && s[0] == 43 {
        s.drop_first()
    } else {
        s
    }
}

/// The number that `s` spells in decimal, with an optional leading plus sign,
/// provided that it is at most `max`. Anything else spells no number: an
/// empty run of digits, a byte that is no digit, a value above `max`.
pub open spec fn parse_unsigned(s: Seq<u8>, max: nat) -> Option<nat> {
    let digits = without_plus(s);
    if digits.len() > 0 && all_digits(digits) && digits_value(digits) <= max {
        Some(digits_value(digits))
    } else {
        None
    }
}

/// A run of digits is worth at least as much as each of its prefixes.
pub proof fn lemma_digits_value_grows(s: Seq<u8>, n: int)
    requires
        all_digits(s),
        0 <= n <= s.len(),
    ensures
        digits_value(s.subrange(0, n)) <= digits_value(s),
    decreases s.len(),
{
    if n == s.len() {
        assert(s.subrange(0, n) =~= s);
    } else {
        let shorter = s.drop_last();
        assert(shorter.subrange(0, n) =~= s.subrange(0, n));
        lemma_digits_value_grows(shorter, n);
    }
}

/// Reads a decimal number of at most `max` from `s`.
pub fn parse_number(s: &[u8], max: u64) -> (r: Option<u64>)
    ensures
        match r {
            Some(v) => parse_unsigned(s@, max as nat) == Some(v as nat),
            None => parse_unsigned(s@, max as nat) is None,
        },
{
    let first: usize = if s.len() > 0 && s[0] == 43 {
        1
    } else {
        0
    };
    let ghost digits = without_plus(s@);
    assert(digits =~= s@.subrange(first as int, s@.len() as int));
    if first >= s.len() {
        return None;
    }
    let mut acc: u64 = 0;
    let mut i: usize = first;
    while i < s.len()
        invariant
            first <= i <= s.len(),
            digits == without_plus(s@),
            digits == s@.subrange(first as int, s@.len() as int),
            all_digits(digits.subrange(0, i - first)),
            acc == digits_value(digits.subrange(0, i - first)),
            acc <= max,
        decreases s.len() - i,
    {
        let b = s[i];
        if b < 48 || b > 57 {
            assert(digits[i - first] == b);
            assert(!all_digits(digits));
            return None;
        }
        let d: u64 = (b - 48) as u64;
        let ghost longer = digits.subrange(0, i - first + 1);
        assert(longer.drop_last() =~= digits.subrange(0, i - first));
        assert(longer.last() == b);
        assert(all_digits(longer)) by {
            assert forall|k: int| 0 <= k < longer.len() implies is_digit(#[trigger] longer[k]) by {
                if k < i - first {
                    assert(longer[k] == digits.subrange(0, i - first)[k]);
                }
            }
        }
        if d > max || acc > (max - d) / 10 {
            assert(digits_value(longer) > max) by {
                assert(digits_value(longer) == acc * 10 + d);
            }
            proof {
                if all_digits(digits) {
                    lemma_digits_value_grows(digits, i - first + 1);
                }
            }
            return None;
        }
        acc = acc * 10 + d;
        i += 1;
    }
    assert(digits.subrange(0, i - first) =~= digits);
    Some(acc)
}

/// The character of one decimal digit.
pub open spec fn digit_char(d: nat) -> char {
    ((48 + d) as u8) as char
}

/// The decimal spelling of `n`, without leading zeros.
pub open spec fn decimal_text(n: nat) -> Seq<char>
    decreases n,
{
    if n < 10 {
        seq![digit_char(n)]
    } else {
        decimal_text(n / 10).push(digit_char(n % 10))
    }
}

/// The decimal spelling of `n`, filled with a leading zero to two places.
pub open spec fn two_digit_text(n: nat) -> Seq<char> {
    if n < 10 {
        seq!['0'].push(digit_char(n))
    } else {
        decimal_text(n)
    }
}

/// Appends the decimal spelling of `n` to `out`.
pub fn push_decimal(out: &mut String, n: u64)
    ensures
        final(out)@ == old(out)@ + decimal_text(n as nat),
    decreases n,
{
    if n >= 10 {
        push_decimal(out, n / 10);
    }
    let d: u8 = (n % 10) as u8;
    out.push((48 + d) as char);
    assert(final(out)@ =~= old(out)@ + decimal_text(n as nat));
}

/// Appends `n` in decimal, filled with a leading zero to two places.
pub fn push_two_digits(out: &mut String, n: u64)
    ensures
        final(out)@ == old(out)@ + two_digit_text(n as nat),
{
    if n < 10 {
        out.push('0');
        let d: u8 = n as u8;
        out.push((48 + d) as char);
        assert(final(out)@ =~= old(out)@ + two_digit_text(n as nat));
    } else {
        push_decimal(out, n);
    }
}

/// The lower-case form of an ASCII letter; every other byte is kept.
pub open spec fn lower_byte(b: u8) -> u8 {
    if 65 <= b && b <= 90 {
        (b + 32) as u8
    } else {
        b
    }
}

/// `s` with its ASCII capital letters in lower case.
pub open spec fn lower_bytes(s: Seq<u8>) -> Seq<u8> {
    Seq::new(s.len(), |i: int| lower_byte(s[i]))
}

/// Puts the ASCII capital letters of `bytes` in lower case.
pub fn to_lower(bytes: &[u8]) -> (out: Vec<u8>)
    ensures
        out@ == lower_bytes(bytes@),
{
    let mut out: Vec<u8> = Vec::new();
    let mut i: usize = 0;
    while i < bytes.len()
        invariant
            i <= bytes.len(),
            out@ == lower_bytes(bytes@.subrange(0, i as int)),
        decreases bytes.len() - i,
    {
        let b = bytes[i];
        if 65 <= b && b <= 90 {
            out.push(b + 32);
        } else {
            out.push(b);
        }
        i += 1;
        assert(lower_bytes(bytes@.subrange(0, i as int)) =~= lower_bytes(
            bytes@.subrange(0, i - 1),
        ).push(lower_byte(bytes@[i - 1])));
    }
    assert(bytes@.subrange(0, i as int) =~= bytes@);
    out
}

} // verus!
