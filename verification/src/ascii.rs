//! ASCII helpers over byte sequences: literals, numbers and prefixes.

use vstd::prelude::*;

use crate::text::chars_of;
use crate::text::decimal;
use crate::text::digit_char;
use crate::text::parse_u64;
use crate::text::parsed_unsigned;
use crate::text::text_or_empty;
use crate::text::trim;
use crate::text::trimmed;
use crate::text::utf8_or_empty;

verus! {

/// The bytes of an ASCII text.
pub open spec fn ascii(s: Seq<char>) -> Seq<u8> {
    s.map_values(|c: char| c as u8)
}

/// A number in decimal, filled up with leading zeros to `width` digits.
pub open spec fn padded(n: nat, width: nat) -> Seq<char> {
    let digits = decimal(n);
    if digits.len() >= width {
        digits
    } else {
        Seq::new((width - digits.len()) as nat, |i: int| '0') + digits
    }
}

/// The unsigned number that bytes write, with white space around it or without.
pub open spec fn number_in(bytes: Seq<u8>) -> Option<nat> {
    parsed_unsigned(trimmed(utf8_or_empty(bytes)), u64::MAX as nat)
}

/// Append an ASCII text.
pub(crate) fn push_ascii(out: &mut Vec<u8>, s: &str)
    ensures
        final(out)@ == old(out)@ + ascii(s@),
{
    let v = chars_of(s);
    let mut i: usize = 0;
    while i < v.len()
        invariant
            v@ == s@,
            i <= v@.len(),
            out@ == old(out)@ + ascii(s@.take(i as int)),
        decreases v@.len() - i,
    {
        out.push(v[i] as u8);
        proof {
            assert(ascii(s@.take(i + 1)) =~= ascii(s@.take(i as int)).push(s@[i as int] as u8));
            assert(out@ =~= old(out)@ + ascii(s@.take(i + 1)));
        }
        i = i + 1;
    }
    proof {
        assert(s@.take(i as int) =~= s@);
    }
}

/// The bytes of an ASCII text.
pub(crate) fn ascii_bytes(s: &str) -> (r: Vec<u8>)
    ensures
        r@ == ascii(s@),
{
    let mut out: Vec<u8> = Vec::new();
    push_ascii(&mut out, s);
    proof {
        assert(out@ =~= ascii(s@));
    }
    out
}

/// Append a number in decimal.
pub(crate) fn push_number(out: &mut Vec<u8>, n: u64)
    ensures
        final(out)@ == old(out)@ + ascii(decimal(n as nat)),
    decreases n,
{
    if n >= 10 {
        push_number(out, n / 10);
    }
    out.push(48 + (n % 10) as u8);
    proof {
        let d = digit_char((n % 10) as nat);
        assert(d as u8 == 48 + n % 10);
        if n >= 10 {
            assert(ascii(decimal(n as nat)) =~= ascii(decimal((n / 10) as nat)).push(d as u8));
        } else {
            assert(ascii(decimal(n as nat)) =~= seq![d as u8]);
        }
        assert(out@ =~= old(out)@ + ascii(decimal(n as nat)));
    }
}

/// How many digits a number has.
fn digit_count(n: u64) -> (r: usize)
    ensures
        r == decimal(n as nat).len(),
        r <= 20,
{
    let mut rest: u64 = n;
    let mut count: usize = 1;
    let ghost mut bound: int = 19;
    let ghost mut top: int = 9_999_999_999_999_999_999;
    while rest >= 10
        invariant
            decimal(n as nat).len() == decimal(rest as nat).len() + count - 1,
            count + bound == 20,
            bound == 19 ==> rest <= u64::MAX,
            bound < 19 ==> rest <= top,
            0 <= bound <= 19,
            limit_of(bound) == top || bound == 19,
        decreases rest,
    {
        proof {
            lemma_limit_step(rest as int, bound);
            bound = bound - 1;
            top = limit_of(bound);
        }
        rest = rest / 10;
        count = count + 1;
    }
    count
}

/// The largest number that is left after as many digits as leave `bound` more.
spec fn limit_of(bound: int) -> int
    decreases bound,
{
    if bound <= 0 {
        9
    } else {
        limit_of(bound - 1) * 10 + 9
    }
}

proof fn lemma_limit_step(rest: int, bound: int)
    requires
        rest >= 10,
        0 <= bound <= 19,
        bound == 19 ==> rest <= u64::MAX,
        bound < 19 ==> rest <= limit_of(bound),
    ensures
        bound >= 1,
        rest / 10 <= limit_of(bound - 1),
{
    if bound == 19 {
        assert(limit_of(18) >= 1_844_674_407_370_955_161) by {
            reveal_with_fuel(limit_of, 20);
        }
    }
}

/// Append a number in decimal, filled up with leading zeros to `width` digits.
pub(crate) fn push_padded(out: &mut Vec<u8>, n: u64, width: usize)
    ensures
        final(out)@ == old(out)@ + ascii(padded(n as nat, width as nat)),
{
    let digits: usize = digit_count(n);
    let fill: usize = if digits < width {
        width - digits
    } else {
        0
    };
    let ghost zeros = Seq::new(fill as nat, |i: int| '0');
    let mut i: usize = 0;
    while i < fill
        invariant
            i <= fill,
            zeros == Seq::new(fill as nat, |i: int| '0'),
            out@ == old(out)@ + ascii(zeros.take(i as int)),
        decreases fill - i,
    {
        out.push(0x30);
        proof {
            assert(ascii(zeros.take(i + 1)) =~= ascii(zeros.take(i as int)).push(0x30));
            assert(out@ =~= old(out)@ + ascii(zeros.take(i + 1)));
        }
        i = i + 1;
    }
    push_number(out, n);
    proof {
        assert(zeros.take(fill as int) =~= zeros);
        if fill == 0 {
            assert(zeros =~= Seq::empty());
        }
        assert(ascii(padded(n as nat, width as nat)) =~= ascii(zeros) + ascii(decimal(n as nat)));
        assert(out@ =~= old(out)@ + ascii(padded(n as nat, width as nat)));
    }
}

/// Whether bytes are those of an ASCII text.
pub(crate) fn is_ascii_text(bytes: &[u8], s: &str) -> (r: bool)
    ensures
        r == (bytes@ == ascii(s@)),
{
    let v = ascii_bytes(s);
    same_bytes(bytes, v.as_slice())
}

/// Whether two byte sequences are equal.
pub(crate) fn same_bytes(a: &[u8], b: &[u8]) -> (r: bool)
    ensures
        r == (a@ == b@),
{
    if a.len() != b.len() {
        return false;
    }
    let mut i: usize = 0;
    while i < a.len()
        invariant
            i <= a@.len(),
            a@.len() == b@.len(),
            forall|j: int| 0 <= j < i ==> #[trigger] a@[j] == b@[j],
        decreases a@.len() - i,
    {
        if a[i] != b[i] {
            return false;
        }
        i = i + 1;
    }
    proof {
        assert(a@ =~= b@);
    }
    true
}

/// Whether `bytes` start with `prefix`.
pub open spec fn begins_with(bytes: Seq<u8>, prefix: Seq<u8>) -> bool {
    prefix.len() <= bytes.len() && bytes.take(prefix.len() as int) == prefix
}

/// Whether `bytes` start with `prefix`.
pub(crate) fn starts_with(bytes: &[u8], prefix: &[u8]) -> (r: bool)
    ensures
        r == begins_with(bytes@, prefix@),
{
    if prefix.len() > bytes.len() {
        return false;
    }
    same_bytes(vstd::slice::slice_subrange(bytes, 0, prefix.len()), prefix)
}

/// The unsigned number that bytes write, with white space around it or without.
pub(crate) fn parse_number(bytes: &[u8]) -> (r: Option<u64>)
    ensures
        match r {
            Some(n) => number_in(bytes@) == Some(n as nat),
            None => number_in(bytes@) is None,
        },
{
    let text = trim(text_or_empty(bytes));
    parse_u64(text.as_str())
}

/// A number written in decimal digits is read back, with leading zeros or without.
pub proof fn law_number_round_trip(n: nat, width: nat)
    requires
        n <= u64::MAX,
    ensures
        number_in(ascii(padded(n, width))) == Some(n),
{
    let s = padded(n, width);
    lemma_padded_digits(n, width);
    lemma_ascii_text(s);
    lemma_padded_value(n, width);
}

/// The digits of a number are digits, and there is at least one.
pub proof fn lemma_padded_digits(n: nat, width: nat)
    ensures
        crate::text::all_digits(padded(n, width)),
        padded(n, width).len() > 0,
        padded(n, width).len() >= width,
        decimal(n).len() <= width ==> padded(n, width).len() == width,
{
    lemma_decimal_digits(n);
}

proof fn lemma_decimal_digits(n: nat)
    ensures
        crate::text::all_digits(decimal(n)),
        decimal(n).len() > 0,
    decreases n,
{
    if n >= 10 {
        lemma_decimal_digits(n / 10);
    }
}

/// The digits of a number write it.
pub proof fn lemma_decimal_value(n: nat)
    ensures
        crate::text::digits_value(decimal(n)) == n,
    decreases n,
{
    reveal_with_fuel(crate::text::digits_value, 2);
    if n >= 10 {
        lemma_decimal_value(n / 10);
        assert(decimal(n).drop_last() =~= decimal(n / 10));
    } else {
        assert(decimal(n).drop_last() =~= Seq::empty());
    }
}

/// Leading zeros add nothing to a number.
proof fn lemma_zeros_value(count: nat, digits: Seq<char>)
    ensures
        crate::text::digits_value(Seq::new(count, |i: int| '0') + digits)
            == crate::text::digits_value(digits),
    decreases count + digits.len(),
{
    let zeros = Seq::new(count, |i: int| '0');
    if digits.len() > 0 {
        assert((zeros + digits).drop_last() =~= zeros + digits.drop_last());
        lemma_zeros_value(count, digits.drop_last());
    } else if count > 0 {
        let fewer = Seq::new((count - 1) as nat, |i: int| '0');
        assert((zeros + digits).drop_last() =~= fewer + digits);
        lemma_zeros_value((count - 1) as nat, digits);
    } else {
        assert(zeros + digits =~= digits);
    }
}

proof fn lemma_padded_value(n: nat, width: nat)
    ensures
        crate::text::digits_value(padded(n, width)) == n,
{
    lemma_decimal_value(n);
    let digits = decimal(n);
    if digits.len() < width {
        lemma_zeros_value((width - digits.len()) as nat, digits);
    }
}

/// Digits read as bytes are the same text, and trimming leaves them alone.
proof fn lemma_ascii_text(s: Seq<char>)
    requires
        crate::text::all_digits(s),
        s.len() > 0,
    ensures
        trimmed(utf8_or_empty(ascii(s))) == s,
{
    assert(vstd::utf8::is_ascii_chars(s)) by {
        assert forall|i: int| 0 <= i < s.len() implies 0 <= #[trigger] (s[i] as u32) < 128 by {
            assert(crate::text::is_digit(s[i]));
        }
    }
    vstd::utf8::is_ascii_chars_encode_utf8(s);
    assert(vstd::utf8::encode_utf8(s) =~= ascii(s));
    vstd::utf8::encode_utf8_valid_utf8(s);
    vstd::utf8::encode_utf8_decode_utf8(s);
    assert(crate::text::is_digit(s[0]));
    assert(crate::text::is_digit(s.last()));
}

/// A number that is filled up to a width is made of digits that write it, as many as the width
/// or, where it needs more, as many as it needs.
pub proof fn law_padded_digits(n: nat, width: nat)
    ensures
        crate::text::all_digits(padded(n, width)),
        crate::text::digits_value(padded(n, width)) == n,
        padded(n, width).len() >= width,
        n > 0 && padded(n, width).len() > width ==> padded(n, width)[0] != '0',
{
    lemma_padded_digits(n, width);
    lemma_padded_value(n, width);
    lemma_leading_digit(n);
}

/// A number in decimal has no leading zero, but zero itself.
proof fn lemma_leading_digit(n: nat)
    ensures
        decimal(n).len() > 0,
        n > 0 ==> decimal(n)[0] != '0',
        n == 0 ==> decimal(n).len() == 1,
    decreases n,
{
    if n >= 10 {
        lemma_leading_digit(n / 10);
        assert(decimal(n)[0] == decimal(n / 10)[0]);
    }
}

/// A text of one byte per character is sent as these bytes.
pub proof fn law_ascii_bytes(text: Seq<char>, i: int)
    requires
        0 <= i < text.len(),
        (text[i] as int) <= 127,
    ensures
        ascii(text).len() == text.len(),
        ascii(text)[i] as int == text[i] as int,
{
    lemma_ascii_byte(text[i]);
}

proof fn lemma_ascii_byte(c: char)
    requires
        (c as int) <= 127,
    ensures
        c as u8 as int == c as int,
{
}

proof fn lemma_ascii_code(c: char)
    requires
        (c as int) < 128,
    ensures
        '\0' <= c <= '\u{7f}',
{
    let first = '\0';
    let last = '\u{7f}';
    assert(first as int == 0);
    assert(last as int == 127);
    assert(first as int <= c as int);
}

/// Whether every character of a text is an ASCII character.
pub open spec fn all_ascii(s: Seq<char>) -> bool {
    forall|i: int| 0 <= i < s.len() ==> ((#[trigger] s[i]) as int) < 128
}

/// The bytes of an ASCII text read as that text.
pub proof fn law_ascii_is_read_back(s: Seq<char>)
    requires
        all_ascii(s),
    ensures
        utf8_or_empty(ascii(s)) == s,
{
    assert forall|i: int| 0 <= i < s.len() implies '\0' <= #[trigger] s[i] <= '\u{7f}' by {
        lemma_ascii_code(s[i]);
    }
    assert(vstd::utf8::is_ascii_chars(s));
    vstd::utf8::is_ascii_chars_encode_utf8(s);
    assert(vstd::utf8::encode_utf8(s) =~= ascii(s));
    vstd::utf8::encode_utf8_valid_utf8(s);
    vstd::utf8::encode_utf8_decode_utf8(s);
}

} // verus!
