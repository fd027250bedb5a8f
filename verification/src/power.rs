//! Transmitter output power.

use vstd::prelude::*;

use crate::text::all_digits;
use crate::text::chars_of;
use crate::text::decimal;
use crate::text::digit_char;
use crate::text::is_digit;
use crate::text::push_decimal;

verus! {

/// One, in millionths.
pub const MILLION: u64 = 1_000_000;

/// Configured transmitter output power, together with the radio's full power.
#[derive(Debug, Clone, Copy, PartialEq, Eq, Structural)]
pub struct TxPower {
    /// Configured power in watts.
    pub watts: u32,
    /// Full power in watts.
    pub max_watts: u32,
}

/// The digits of `rest` below `scale * 10`, the first one counting `scale`, without trailing
/// zeros.
pub open spec fn fraction_digits(rest: nat, scale: nat) -> Seq<char>
    decreases scale,
{
    if rest == 0 || scale == 0 {
        Seq::empty()
    } else {
        seq![digit_char(rest / scale)] + fraction_digits(rest % scale, scale / 10)
    }
}

/// A number of millionths as a decimal fraction without trailing zeros.
pub open spec fn millionths_text(n: nat) -> Seq<char> {
    decimal(n / 1_000_000) + if n % 1_000_000 == 0 {
        Seq::empty()
    } else {
        seq!['.'] + fraction_digits(n % 1_000_000, 100_000)
    }
}

/// The millionths that the digits `s` behind a decimal point mean, the first one counting
/// `scale`. Digits below one millionth do not count.
pub open spec fn fraction_value(s: Seq<char>, scale: nat) -> nat
    decreases s.len(),
{
    if s.len() == 0 {
        0
    } else {
        (s[0] as int - 48) as nat * scale + fraction_value(s.skip(1), scale / 10)
    }
}

/// The millionths that a relative level from 0 to 1 means: digits, and optionally a point
/// and more digits.
pub open spec fn parsed_millionths(s: Seq<char>) -> Option<nat> {
    let whole = match crate::text::before_char(s, '.') {
        Some(whole) => whole,
        None => s,
    };
    let fraction = if whole.len() < s.len() {
        s.skip((whole.len() + 1) as int)
    } else {
        Seq::empty()
    };
    let value = crate::text::digits_value(whole) * 1_000_000 + fraction_value(fraction, 100_000);
    if whole.len() > 0 && all_digits(whole) && all_digits(fraction) && value <= 1_000_000 {
        Some(value)
    } else {
        None
    }
}

/// What stands before a character is shorter than the text that holds it.
proof fn lemma_before_char_len(s: Seq<char>, c: char)
    ensures
        crate::text::before_char(s, c) matches Some(t) ==> t.len() < s.len(),
    decreases s.len(),
{
    if s.len() > 0 && s[0] != c {
        lemma_before_char_len(s.skip(1), c);
    }
}

impl TxPower {
    /// The power relative to full power, in millionths, rounded down.
    pub open spec fn relative(self) -> nat {
        if self.max_watts == 0 {
            0
        } else {
            (self.watts * 1_000_000 / self.max_watts as int) as nat
        }
    }

    /// A power in watts out of a full power in watts.
    #[must_use]
    pub fn from_watts(watts: u32, max_watts: u32) -> (r: Self)
        ensures
            r == (TxPower { watts, max_watts }),
    {
        TxPower { watts, max_watts }
    }

    /// The power relative to full power as a decimal fraction.
    #[must_use]
    pub fn relative_decimal(self) -> (r: String)
        ensures
            r@ == millionths_text(self.relative()),
    {
        let n: u64 = if self.max_watts == 0 {
            0
        } else {
            self.watts as u64 * MILLION / self.max_watts as u64
        };
        let mut out = String::new();
        push_decimal(&mut out, n / MILLION);
        let mut rest: u64 = n % MILLION;
        if rest == 0 {
            proof {
                assert(out@ =~= millionths_text(n as nat));
            }
            return out;
        }
        out.push('.');
        let mut scale: u64 = 100_000;
        let ghost goal = millionths_text(n as nat);
        proof {
            assert(out@ + fraction_digits(rest as nat, scale as nat) =~= goal);
        }
        while rest != 0 && scale != 0
            invariant
                rest < 10 * scale || (scale == 0 && rest == 0),
                scale <= 100_000,
                scale == 100_000 || scale == 10_000 || scale == 1_000 || scale == 100 || scale == 10
                    || scale == 1 || scale == 0,
                out@ + fraction_digits(rest as nat, scale as nat) == goal,
            decreases scale,
        {
            let ghost before = out@;
            let d: u8 = 48 + (rest / scale) as u8;
            out.push(d as char);
            proof {
                assert(before + fraction_digits(rest as nat, scale as nat) =~= out@
                    + fraction_digits((rest % scale) as nat, (scale / 10) as nat));
            }
            rest = rest % scale;
            scale = scale / 10;
        }
        proof {
            assert(out@ =~= goal);
        }
        out
    }

    /// Read a relative level from 0 to 1 in millionths.
    #[must_use]
    pub fn parse_relative_millionths(value: &str) -> (r: Option<u32>)
        ensures
            match r {
                Some(n) => parsed_millionths(value@) == Some(n as nat),
                None => parsed_millionths(value@) is None,
            },
    {
        let v = chars_of(value);
        let whole = match crate::text::text_before(value, '.') {
            Some(whole) => whole,
            None => value.to_owned(),
        };
        proof {
            lemma_before_char_len(value@, '.');
        }
        let w = chars_of(whole.as_str());
        proof {
            assert(w@.skip(0) =~= w@);
        }
        let units: u64 = match crate::text::parse_digits(&w, 0) {
            Some(units) => units,
            None => return None,
        };
        let start: usize = if w.len() < v.len() {
            w.len() + 1
        } else {
            v.len()
        };
        let ghost fraction = if whole@.len() < value@.len() {
            value@.skip((whole@.len() + 1) as int)
        } else {
            Seq::empty()
        };
        let mut acc: u64 = 0;
        let mut scale: u64 = 100_000;
        let mut i: usize = start;
        proof {
            assert(v@.skip(start as int) =~= fraction);
        }
        #[verifier::loop_isolation(false)]
        while i < v.len()
            invariant
                start <= i <= v@.len(),
                v@.skip(start as int) == fraction,
                forall|j: int| start <= j < i ==> is_digit(#[trigger] v@[j]),
                acc + 10 * scale <= 1_000_000,
                acc + fraction_value(v@.skip(i as int), scale as nat) == fraction_value(
                    fraction,
                    100_000,
                ),
            decreases v@.len() - i,
        {
            let c = v[i];
            if !(c >= '0' && c <= '9') {
                proof {
                    assert(fraction[i - start] == c);
                }
                return None;
            }
            let d: u64 = (c as u32 - 48) as u64;
            proof {
                assert(v@.skip(i as int).skip(1) =~= v@.skip(i + 1));
                assert(d * scale <= 9 * scale) by (nonlinear_arith)
                    requires
                        d <= 9,
                ;
            }
            acc = acc + d * scale;
            scale = scale / 10;
            i = i + 1;
        }
        proof {
            assert forall|j: int| 0 <= j < fraction.len() implies is_digit(#[trigger] fraction[j]) by {
                assert(fraction[j] == v@[start + j]);
            }
        }
        if units > 1 || units * MILLION + acc > MILLION {
            return None;
        }
        Some((units * MILLION + acc) as u32)
    }

    /// The power in milliwatts at a relative level in millionths, rounded down.
    #[must_use]
    pub fn milliwatts_for_relative(self, millionths: u32) -> (r: Option<u64>)
        ensures
            self.max_watts == 0 ==> r is None,
            self.max_watts != 0 ==> r == Some(
                (self.max_watts as nat * millionths as nat / 1000) as u64,
            ),
    {
        if self.max_watts == 0 {
            return None;
        }
        proof {
            assert(self.max_watts as nat * millionths as nat <= 0xffff_ffff * 0xffff_ffff)
                by (nonlinear_arith)
                requires
                    self.max_watts <= 0xffff_ffff,
                    millionths <= 0xffff_ffff,
            ;
        }
        Some(self.max_watts as u64 * millionths as u64 / 1000)
    }
}

/// Whether a number is one of the decimal places behind the point.
spec fn is_place(scale: nat) -> bool {
    scale == 1 || scale == 10 || scale == 100 || scale == 1_000 || scale == 10_000 || scale
        == 100_000
}

proof fn lemma_fraction_round_trip(rest: nat, scale: nat)
    requires
        is_place(scale),
        rest < 10 * scale,
    ensures
        fraction_value(fraction_digits(rest, scale), scale) == rest,
        all_digits(fraction_digits(rest, scale)),
    decreases scale,
{
    let digits = fraction_digits(rest, scale);
    if rest > 0 {
        let first = rest / scale;
        let left = rest % scale;
        let others = fraction_digits(left, scale / 10);
        assert(rest == first * scale + left && first < 10 && left < scale) by (nonlinear_arith)
            requires
                first == rest / scale,
                left == rest % scale,
                0 < scale,
                rest < 10 * scale,
        ;
        assert(digits.skip(1) =~= others);
        assert(digits[0] == digit_char(first));
        assert(digit_char(first) as int == 48 + first);
        if scale > 1 {
            lemma_fraction_round_trip(left, scale / 10);
        }
        assert forall|i: int| 0 <= i < digits.len() implies is_digit(#[trigger] digits[i]) by {
            if i > 0 {
                assert(digits[i] == others[i - 1]);
            }
        }
    }
}

proof fn lemma_before_point(digits: Seq<char>, fraction: Seq<char>)
    requires
        all_digits(digits),
    ensures
        crate::text::before_char(digits + seq!['.'] + fraction, '.') == Some(digits),
        crate::text::before_char(digits, '.') is None,
    decreases digits.len(),
{
    let text = digits + seq!['.'] + fraction;
    if digits.len() == 0 {
        assert(text[0] == '.');
        assert(digits =~= Seq::empty());
    } else {
        assert(is_digit(digits[0]));
        assert(text[0] == digits[0]);
        lemma_before_point(digits.skip(1), fraction);
        assert(text.skip(1) =~= digits.skip(1) + seq!['.'] + fraction);
        assert(seq![digits[0]] + digits.skip(1) =~= digits);
    }
}

/// A relative level is written as a decimal fraction that reads as that level. It is the part
/// that the power takes of the full power, down to millionths: nothing at no power, one at full
/// power, and nothing where no full power is known.
pub proof fn law_levels_are_read_back(power: TxPower, level: nat)
    requires
        level <= 1_000_000,
    ensures
        parsed_millionths(millionths_text(level)) == Some(level),
        power.max_watts > 0 ==> power.relative() * power.max_watts <= power.watts * 1_000_000 < (
        power.relative() + 1) * power.max_watts,
        power.max_watts > 0 && power.watts == power.max_watts ==> power.relative() == 1_000_000,
        power.watts == 0 || power.max_watts == 0 ==> power.relative() == 0,
        millionths_text(1_000_000) == "1"@,
        millionths_text(0) == "0"@,
{
    let whole = decimal(level / 1_000_000);
    let rest = level % 1_000_000;
    crate::ascii::lemma_padded_digits(level / 1_000_000, 0);
    crate::ascii::lemma_decimal_value(level / 1_000_000);
    assert(crate::ascii::padded(level / 1_000_000, 0) =~= whole);
    let fraction = fraction_digits(rest, 100_000);
    lemma_fraction_round_trip(rest, 100_000);
    lemma_before_point(whole, fraction);
    let text = millionths_text(level);
    if rest == 0 {
        assert(text =~= whole);
    } else {
        assert(text =~= whole + seq!['.'] + fraction);
        assert(text.skip((whole.len() + 1) as int) =~= fraction);
    }
    let w = power.watts as int;
    let m = power.max_watts as int;
    if m > 0 {
        let q = w * 1_000_000 / m;
        assert(q >= 0 && q * m <= w * 1_000_000 < (q + 1) * m) by (nonlinear_arith)
            requires
                q == w * 1_000_000 / m,
                m > 0,
                w >= 0,
        ;
        if w == m {
            assert(q == 1_000_000) by (nonlinear_arith)
                requires
                    q == w * 1_000_000 / m,
                    m > 0,
                    w == m,
            ;
        }
        if w == 0 {
            assert(q == 0) by (nonlinear_arith)
                requires
                    q == w * 1_000_000 / m,
                    m > 0,
                    w == 0,
            ;
        }
    }
    reveal_strlit("0");
    reveal_strlit("1");
    assert(millionths_text(1_000_000) =~= "1"@);
    assert(millionths_text(0) =~= "0"@);
}

} // verus!
