//! Text helpers over a `Seq<char>` model: equality, white space, ASCII case folding and
//! decimal numbers.

use vstd::prelude::*;
use vstd::utf8::decode_utf8;
use vstd::utf8::encode_utf8;
use vstd::utf8::valid_utf8;

verus! {

/// `String::push` of the standard library appends one character at the end.
pub assume_specification[ String::push ](s: &mut String, c: char)
    ensures
        final(s)@ == old(s)@.push(c),
;

/// Whether two texts have the same characters.
pub(crate) fn same_text(a: &str, b: &str) -> (r: bool)
    ensures
        r == (a@ == b@),
{
    a.to_owned() == b.to_owned()
}

/// `std::str::from_utf8` reads bytes as text exactly when they are valid UTF-8.
#[verifier::external_body]
pub(crate) fn utf8_text(bytes: &[u8]) -> (r: Option<&str>)
    ensures
        r is Some <==> valid_utf8(bytes@),
        r matches Some(s) ==> encode_utf8(s@) == bytes@,
{
    std::str::from_utf8(bytes).ok()
}

/// The text of bytes that are valid UTF-8, and nothing otherwise.
pub open spec fn utf8_or_empty(bytes: Seq<u8>) -> Seq<char> {
    if valid_utf8(bytes) {
        decode_utf8(bytes)
    } else {
        Seq::empty()
    }
}

/// The text of bytes that are valid UTF-8, and nothing otherwise.
pub(crate) fn text_or_empty(bytes: &[u8]) -> (r: &str)
    ensures
        r@ == utf8_or_empty(bytes@),
{
    match utf8_text(bytes) {
        Some(s) => {
            proof {
                vstd::utf8::encode_utf8_decode_utf8(s@);
            }
            s
        },
        None => {
            proof {
                reveal_strlit("");
                assert(""@ =~= Seq::empty());
            }
            ""
        },
    }
}

/// Whether a text is empty.
pub(crate) fn is_empty_text(s: &str) -> (r: bool)
    ensures
        r == (s@.len() == 0),
{
    proof {
        reveal_strlit("");
        assert(s@.len() == 0 ==> s@ =~= ""@);
    }
    same_text(s, "")
}

/// The characters of a text as a vector.
pub(crate) fn chars_of(s: &str) -> (v: Vec<char>)
    ensures
        v@ == s@,
{
    let mut v: Vec<char> = Vec::new();
    for c in iter: s.chars()
        invariant
            v@ == s@.take(iter.index() as int),
            iter.seq() == s@,
    {
        v.push(c);
    }
    v
}

/// The text made of the characters of `v` from `from` to `to`.
pub(crate) fn string_of(v: &Vec<char>, from: usize, to: usize) -> (s: String)
    requires
        from <= to <= v@.len(),
    ensures
        s@ == v@.subrange(from as int, to as int),
{
    let mut s = String::new();
    let mut i: usize = from;
    while i < to
        invariant
            from <= i <= to <= v@.len(),
            s@ == v@.subrange(from as int, i as int),
        decreases to - i,
    {
        s.push(v[i]);
        i = i + 1;
    }
    s
}

/// The texts of a vector of strings.
pub open spec fn texts(v: Seq<String>) -> Seq<Seq<char>> {
    v.map_values(|t: String| t@)
}

/// Texts with a separator between each two.
pub open spec fn joined_by(items: Seq<Seq<char>>, sep: Seq<char>) -> Seq<char>
    decreases items.len(),
{
    if items.len() == 0 {
        Seq::empty()
    } else if items.len() == 1 {
        items[0]
    } else {
        joined_by(items.drop_last(), sep) + sep + items.last()
    }
}

/// Texts with a separator between each two.
pub(crate) fn join(items: &[String], sep: &str) -> (r: String)
    ensures
        r@ == joined_by(texts(items@), sep@),
{
    let ghost all = texts(items@);
    let mut out = String::new();
    let mut i: usize = 0;
    proof {
        assert(out@ =~= joined_by(all.take(0), sep@));
    }
    while i < items.len()
        invariant
            i <= items@.len(),
            all == texts(items@),
            out@ == joined_by(all.take(i as int), sep@),
        decreases items@.len() - i,
    {
        if i > 0 {
            out.append(sep);
        }
        out.append(items[i].as_str());
        proof {
            assert(all.take(i + 1).drop_last() =~= all.take(i as int));
            assert(all.take(i + 1).last() == items@[i as int]@);
            if i == 0 {
                assert(all.take(0) =~= Seq::empty());
            }
            assert(out@ =~= joined_by(all.take(i + 1), sep@));
        }
        i = i + 1;
    }
    proof {
        assert(all.take(i as int) =~= all);
    }
    out
}

/// Append a text to a vector of texts.
pub(crate) fn push_text(items: &mut Vec<String>, item: String)
    ensures
        texts(final(items)@) == texts(old(items)@).push(item@),
{
    let ghost before = texts(items@);
    let ghost added = item@;
    items.push(item);
    proof {
        assert(texts(items@) =~= before.push(added));
    }
}

// ---------------------------------------------------------------------------------------
// White space
// ---------------------------------------------------------------------------------------

/// The Unicode `White_Space` property.
pub open spec fn is_space(c: char) -> bool {
    let n = c as u32;
    ||| 0x9 <= n <= 0xd
    ||| n == 0x20
    ||| n == 0x85
    ||| n == 0xa0
    ||| n == 0x1680
    ||| 0x2000 <= n <= 0x200a
    ||| n == 0x2028
    ||| n == 0x2029
    ||| n == 0x202f
    ||| n == 0x205f
    ||| n == 0x3000
}

/// `s` without its leading white space.
pub open spec fn trim_start(s: Seq<char>) -> Seq<char>
    decreases s.len(),
{
    if s.len() > 0 && is_space(s[0]) {
        trim_start(s.skip(1))
    } else {
        s
    }
}

/// `s` without its trailing white space.
pub open spec fn trim_end(s: Seq<char>) -> Seq<char>
    decreases s.len(),
{
    if s.len() > 0 && is_space(s.last()) {
        trim_end(s.drop_last())
    } else {
        s
    }
}

/// `s` without white space on either side.
pub open spec fn trimmed(s: Seq<char>) -> Seq<char> {
    trim_end(trim_start(s))
}

/// Whether a text is nothing but white space.
pub open spec fn blank(s: Seq<char>) -> bool {
    forall|i: int| 0 <= i < s.len() ==> is_space(#[trigger] s[i])
}

proof fn lemma_trim_start_blank(before: Seq<char>, s: Seq<char>)
    requires
        blank(before),
        s.len() > 0,
        !is_space(s[0]),
    ensures
        trim_start(before + s) == s,
    decreases before.len(),
{
    if before.len() == 0 {
        assert(before + s =~= s);
    } else {
        let rest = before.skip(1);
        assert forall|i: int| 0 <= i < rest.len() implies is_space(#[trigger] rest[i]) by {
            assert(rest[i] == before[i + 1]);
        }
        assert((before + s).skip(1) =~= rest + s);
        lemma_trim_start_blank(rest, s);
    }
}

proof fn lemma_trim_end_blank(s: Seq<char>, after: Seq<char>)
    requires
        blank(after),
        s.len() > 0,
        !is_space(s.last()),
    ensures
        trim_end(s + after) == s,
    decreases after.len(),
{
    if after.len() == 0 {
        assert(s + after =~= s);
    } else {
        let rest = after.drop_last();
        assert forall|i: int| 0 <= i < rest.len() implies is_space(#[trigger] rest[i]) by {
            assert(rest[i] == after[i]);
        }
        assert((s + after).drop_last() =~= s + rest);
        lemma_trim_end_blank(s, rest);
    }
}

/// White space around a text that neither starts nor ends with it is trimmed off exactly.
pub proof fn lemma_trimmed_blank(before: Seq<char>, s: Seq<char>, after: Seq<char>)
    requires
        blank(before),
        blank(after),
        s.len() > 0,
        !is_space(s[0]),
        !is_space(s.last()),
    ensures
        trimmed(before + s + after) == s,
{
    assert(before + s + after =~= before + (s + after));
    lemma_trim_start_blank(before, s + after);
    lemma_trim_end_blank(s, after);
}

/// How many characters `s` starts with before the first white space.
pub open spec fn word_len(s: Seq<char>) -> nat
    decreases s.len(),
{
    if s.len() == 0 || is_space(s[0]) {
        0
    } else {
        1 + word_len(s.skip(1))
    }
}

/// The words of `s`: its maximal runs of characters that are not white space, in order.
pub open spec fn words_of(s: Seq<char>) -> Seq<Seq<char>>
    decreases s.len(),
{
    let t = trim_start(s);
    if t.len() == 0 {
        Seq::empty()
    } else {
        proof {
            lemma_trim_start_len(s);
            lemma_word_len_bounds(t);
        }
        seq![t.take(word_len(t) as int)] + words_of(t.skip(word_len(t) as int))
    }
}

/// Trimming never lengthens a text, and what is left starts with no white space.
pub proof fn lemma_trim_start_len(s: Seq<char>)
    ensures
        trim_start(s).len() <= s.len(),
        trim_start(s).len() > 0 ==> !is_space(trim_start(s)[0]),
    decreases s.len(),
{
    if s.len() > 0 && is_space(s[0]) {
        lemma_trim_start_len(s.skip(1));
    }
}

/// A text that does not start with white space starts with a word that lies within it.
pub proof fn lemma_word_len_bounds(s: Seq<char>)
    ensures
        word_len(s) <= s.len(),
        s.len() > 0 && !is_space(s[0]) ==> word_len(s) >= 1,
    decreases s.len(),
{
    if s.len() > 0 && !is_space(s[0]) {
        lemma_word_len_bounds(s.skip(1));
    }
}

/// Whether `c` has the Unicode `White_Space` property.
pub(crate) fn is_white(c: char) -> (r: bool)
    ensures
        r == is_space(c),
{
    let n: u32 = c as u32;
    (n >= 0x9 && n <= 0xd) || n == 0x20 || n == 0x85 || n == 0xa0 || n == 0x1680 || (n >= 0x2000
        && n <= 0x200a) || n == 0x2028 || n == 0x2029 || n == 0x202f || n == 0x205f || n == 0x3000
}

/// The first index at or after `from` that holds no white space.
fn skip_space(v: &Vec<char>, from: usize) -> (i: usize)
    requires
        from <= v@.len(),
    ensures
        from <= i <= v@.len(),
        trim_start(v@.skip(from as int)) == v@.skip(i as int),
{
    let mut i: usize = from;
    while i < v.len() && is_white(v[i])
        invariant
            from <= i <= v@.len(),
            trim_start(v@.skip(from as int)) == trim_start(v@.skip(i as int)),
        decreases v@.len() - i,
    {
        proof {
            assert(v@.skip(i as int).skip(1) =~= v@.skip(i + 1));
        }
        i = i + 1;
    }
    i
}

/// The end of the word that starts at `from`.
fn skip_word(v: &Vec<char>, from: usize) -> (i: usize)
    requires
        from <= v@.len(),
    ensures
        from <= i <= v@.len(),
        word_len(v@.skip(from as int)) == i - from,
{
    let mut i: usize = from;
    while i < v.len() && !is_white(v[i])
        invariant
            from <= i <= v@.len(),
            word_len(v@.skip(from as int)) == i - from + word_len(v@.skip(i as int)),
        decreases v@.len() - i,
    {
        proof {
            assert(v@.skip(i as int).skip(1) =~= v@.skip(i + 1));
        }
        i = i + 1;
    }
    i
}

/// `s` without white space on either side.
pub(crate) fn trim(s: &str) -> (r: String)
    ensures
        r@ == trimmed(s@),
{
    let v = chars_of(s);
    proof {
        assert(v@.skip(0) =~= v@);
    }
    let start: usize = skip_space(&v, 0);
    let mut end: usize = v.len();
    proof {
        assert(v@.skip(start as int) =~= v@.subrange(start as int, end as int));
    }
    while end > start && is_white(v[end - 1])
        invariant
            start <= end <= v@.len(),
            trimmed(v@) == trim_end(v@.subrange(start as int, end as int)),
        decreases end,
    {
        proof {
            assert(v@.subrange(start as int, end as int).drop_last() =~= v@.subrange(
                start as int,
                end - 1,
            ));
        }
        end = end - 1;
    }
    string_of(&v, start, end)
}

/// The words of `s`.
pub(crate) fn words(s: &str) -> (r: Vec<String>)
    ensures
        texts(r@) == words_of(s@),
{
    let v = chars_of(s);
    let mut out: Vec<String> = Vec::new();
    let mut i: usize = skip_space(&v, 0);
    proof {
        assert(v@.skip(0) =~= v@);
        lemma_words_of_trim_start(v@);
        lemma_trim_start_len(v@);
        assert(texts(out@) + words_of(v@.skip(i as int)) =~= words_of(v@));
    }
    while i < v.len()
        invariant
            i <= v@.len(),
            v@ == s@,
            i < v@.len() ==> !is_space(v@[i as int]),
            texts(out@) + words_of(v@.skip(i as int)) == words_of(v@),
        decreases v@.len() - i,
    {
        let end: usize = skip_word(&v, i);
        let ghost rest = v@.skip(i as int);
        proof {
            lemma_word_len_bounds(rest);
            assert(trim_start(rest) == rest);
            assert(rest.take(end - i) =~= v@.subrange(i as int, end as int));
            assert(rest.skip(end - i) =~= v@.skip(end as int));
            lemma_words_of_trim_start(v@.skip(end as int));
            lemma_trim_start_len(v@.skip(end as int));
        }
        let ghost before = out@;
        let word = string_of(&v, i, end);
        out.push(word);
        let next: usize = skip_space(&v, end);
        proof {
            assert(texts(out@) =~= texts(before).push(word@));
            assert(words_of(rest) =~= seq![word@] + words_of(v@.skip(next as int)));
            assert(texts(out@) + words_of(v@.skip(next as int)) =~= texts(before) + words_of(rest));
        }
        i = next;
    }
    proof {
        assert(v@.skip(i as int) =~= Seq::<char>::empty());
        assert(texts(out@) =~= words_of(v@));
    }
    out
}

proof fn lemma_words_of_trim_start(s: Seq<char>)
    ensures
        words_of(s) == words_of(trim_start(s)),
{
    lemma_trim_start_len(s);
    assert(trim_start(trim_start(s)) == trim_start(s));
}

// ---------------------------------------------------------------------------------------
// Prefixes, searching and ASCII case
// ---------------------------------------------------------------------------------------

/// `c` with the letters `A` to `Z` made small.
pub open spec fn lower_ascii(c: char) -> char {
    if 'A' <= c <= 'Z' {
        (c as int + 32) as char
    } else {
        c
    }
}

/// Whether two texts are equal but for the case of ASCII letters.
pub open spec fn same_ignoring_case(a: Seq<char>, b: Seq<char>) -> bool {
    a.len() == b.len() && forall|i: int|
        0 <= i < a.len() ==> lower_ascii(#[trigger] a[i]) == lower_ascii(b[i])
}

fn lower(c: char) -> (r: char)
    ensures
        r == lower_ascii(c),
{
    if c >= 'A' && c <= 'Z' {
        ((c as u8) + 32) as char
    } else {
        c
    }
}

/// Whether two texts are equal but for the case of ASCII letters.
pub(crate) fn eq_ignore_ascii_case(a: &str, b: &str) -> (r: bool)
    ensures
        r == same_ignoring_case(a@, b@),
{
    let x = chars_of(a);
    let y = chars_of(b);
    if x.len() != y.len() {
        return false;
    }
    let mut i: usize = 0;
    while i < x.len()
        invariant
            x@ == a@,
            y@ == b@,
            i <= x@.len(),
            x@.len() == y@.len(),
            forall|j: int| 0 <= j < i ==> lower_ascii(#[trigger] a@[j]) == lower_ascii(b@[j]),
        decreases x@.len() - i,
    {
        if lower(x[i]) != lower(y[i]) {
            return false;
        }
        i = i + 1;
    }
    true
}

/// A text with the letters `A` to `Z` made small.
pub open spec fn lowered(s: Seq<char>) -> Seq<char> {
    s.map_values(|c: char| lower_ascii(c))
}

/// `c` with the letters `a` to `z` made capital.
pub open spec fn upper_ascii(c: char) -> char {
    if 'a' <= c <= 'z' {
        (c as int - 32) as char
    } else {
        c
    }
}

/// A text with the letters `a` to `z` made capital.
pub open spec fn uppered(s: Seq<char>) -> Seq<char> {
    s.map_values(|c: char| upper_ascii(c))
}

/// A text with the letters `A` to `Z` made small.
pub(crate) fn to_ascii_lowercase(s: &str) -> (r: String)
    ensures
        r@ == lowered(s@),
{
    let v = chars_of(s);
    let mut out = String::new();
    let mut i: usize = 0;
    while i < v.len()
        invariant
            i <= v@.len(),
            v@ == s@,
            out@ =~= lowered(v@.take(i as int)),
        decreases v@.len() - i,
    {
        out.push(lower(v[i]));
        i = i + 1;
    }
    proof {
        assert(v@.take(i as int) =~= v@);
    }
    out
}

/// A text with the letters `a` to `z` made capital.
pub(crate) fn to_ascii_uppercase(s: &str) -> (r: String)
    ensures
        r@ == uppered(s@),
{
    let v = chars_of(s);
    let mut out = String::new();
    let mut i: usize = 0;
    while i < v.len()
        invariant
            i <= v@.len(),
            v@ == s@,
            out@ =~= uppered(v@.take(i as int)),
        decreases v@.len() - i,
    {
        let c = v[i];
        if c >= 'a' && c <= 'z' {
            out.push(((c as u8) - 32) as char);
        } else {
            out.push(c);
        }
        i = i + 1;
    }
    proof {
        assert(v@.take(i as int) =~= v@);
    }
    out
}

/// What follows `prefix` in `s`, if `s` starts with it.
pub open spec fn after_prefix(s: Seq<char>, prefix: Seq<char>) -> Option<Seq<char>> {
    if prefix.len() <= s.len() && s.take(prefix.len() as int) == prefix {
        Some(s.skip(prefix.len() as int))
    } else {
        None
    }
}

/// What follows `prefix` in `s`, if `s` starts with it.
pub(crate) fn strip_prefix(s: &str, prefix: &str) -> (r: Option<String>)
    ensures
        match r {
            Some(rest) => after_prefix(s@, prefix@) == Some(rest@),
            None => after_prefix(s@, prefix@) is None,
        },
{
    let x = chars_of(s);
    let p = chars_of(prefix);
    if p.len() > x.len() {
        return None;
    }
    let mut i: usize = 0;
    while i < p.len()
        invariant
            x@ == s@,
            p@ == prefix@,
            i <= p@.len() <= x@.len(),
            forall|j: int| 0 <= j < i ==> #[trigger] x@[j] == p@[j],
        decreases p@.len() - i,
    {
        if x[i] != p[i] {
            proof {
                assert(x@.take(p@.len() as int)[i as int] != p@[i as int]);
            }
            return None;
        }
        i = i + 1;
    }
    proof {
        assert(x@.take(p@.len() as int) =~= p@);
        assert(x@.subrange(p@.len() as int, x@.len() as int) =~= x@.skip(p@.len() as int));
    }
    Some(string_of(&x, p.len(), x.len()))
}

/// What stands before the first `c` in `s`, if there is one.
pub open spec fn before_char(s: Seq<char>, c: char) -> Option<Seq<char>>
    decreases s.len(),
{
    if s.len() == 0 {
        None
    } else if s[0] == c {
        Some(Seq::empty())
    } else {
        match before_char(s.skip(1), c) {
            Some(rest) => Some(seq![s[0]] + rest),
            None => None,
        }
    }
}

/// What stands before the first `c` in `s`, if there is one.
pub(crate) fn text_before(s: &str, c: char) -> (r: Option<String>)
    ensures
        match r {
            Some(t) => before_char(s@, c) == Some(t@),
            None => before_char(s@, c) is None,
        },
{
    let v = chars_of(s);
    let mut i: usize = 0;
    proof {
        assert(v@.skip(0) =~= v@);
    }
    while i < v.len()
        invariant
            v@ == s@,
            i <= v@.len(),
            match before_char(v@.skip(i as int), c) {
                Some(t) => before_char(v@, c) == Some(v@.take(i as int) + t),
                None => before_char(v@, c) is None,
            },
        decreases v@.len() - i,
    {
        if v[i] == c {
            proof {
                assert(v@.take(i as int) + Seq::<char>::empty() =~= v@.subrange(0, i as int));
            }
            return Some(string_of(&v, 0, i));
        }
        proof {
            assert(v@.skip(i as int).skip(1) =~= v@.skip(i + 1));
            assert forall|t: Seq<char>|
                #![trigger v@.take(i + 1) + t]
                v@.take(i as int) + (seq![v@[i as int]] + t) == v@.take(i + 1) + t by {
                assert(v@.take(i as int) + (seq![v@[i as int]] + t) =~= v@.take(i + 1) + t);
            }
        }
        i = i + 1;
    }
    None
}

// ---------------------------------------------------------------------------------------
// Decimal numbers
// ---------------------------------------------------------------------------------------

/// The character of a decimal digit.
pub open spec fn digit_char(d: nat) -> char {
    (48 + d) as char
}

/// A number in decimal, without leading zeros.
pub open spec fn decimal(n: nat) -> Seq<char>
    decreases n,
{
    if n < 10 {
        seq![digit_char(n)]
    } else {
        decimal(n / 10).push(digit_char(n % 10))
    }
}

/// An integer in decimal: a minus sign where it is negative, then its size.
pub open spec fn signed_decimal(n: int) -> Seq<char> {
    if n < 0 {
        seq!['-'] + decimal((-n) as nat)
    } else {
        decimal(n as nat)
    }
}

/// Append a number in decimal.
pub(crate) fn push_decimal(out: &mut String, n: u64)
    ensures
        final(out)@ == old(out)@ + decimal(n as nat),
    decreases n,
{
    if n >= 10 {
        push_decimal(out, n / 10);
    }
    let d: u8 = 48 + (n % 10) as u8;
    out.push(d as char);
    proof {
        if n >= 10 {
            assert(out@ =~= old(out)@ + decimal((n / 10) as nat).push(digit_char((n % 10) as nat)));
        } else {
            assert(out@ =~= old(out)@ + seq![digit_char(n as nat)]);
        }
    }
}

/// Append an integer in decimal.
pub(crate) fn push_signed(out: &mut String, n: i32)
    ensures
        final(out)@ == old(out)@ + signed_decimal(n as int),
{
    if n < 0 {
        out.push('-');
        push_decimal(out, (0 - n as i64) as u64);
        proof {
            assert(out@ =~= old(out)@ + signed_decimal(n as int));
        }
    } else {
        push_decimal(out, n as u64);
    }
}

/// Whether `c` is one of the digits `0` to `9`.
pub open spec fn is_digit(c: char) -> bool {
    '0' <= c <= '9'
}

/// Whether every character of `s` is a digit.
pub open spec fn all_digits(s: Seq<char>) -> bool {
    forall|i: int| 0 <= i < s.len() ==> is_digit(#[trigger] s[i])
}

/// The number that a sequence of digits writes.
pub open spec fn digits_value(s: Seq<char>) -> nat
    decreases s.len(),
{
    if s.len() == 0 {
        0
    } else {
        digits_value(s.drop_last()) * 10 + (s.last() as int - 48) as nat
    }
}

/// `s` without one leading plus sign.
pub open spec fn without_plus(s: Seq<char>) -> Seq<char> {
    if s.len() > 0 && s[0] == '+' {
        s.skip(1)
    } else {
        s
    }
}

/// The unsigned number of at most `max` that `s` writes: digits, after at most one plus sign.
pub open spec fn parsed_unsigned(s: Seq<char>, max: nat) -> Option<nat> {
    let body = without_plus(s);
    if body.len() > 0 && all_digits(body) && digits_value(body) <= max {
        Some(digits_value(body))
    } else {
        None
    }
}

/// The number from `min` to `max` that `s` writes: digits after at most one sign.
pub open spec fn parsed_signed(s: Seq<char>, min: int, max: int) -> Option<int> {
    let negative = s.len() > 0 && s[0] == '-';
    let body = if negative {
        s.skip(1)
    } else {
        without_plus(s)
    };
    let size = digits_value(body) as int;
    let value = if negative {
        -size
    } else {
        size
    };
    if body.len() > 0 && all_digits(body) && min <= value <= max {
        Some(value)
    } else {
        None
    }
}

/// The number of at most `u64::MAX` that the digits of `v` from `from` write, if they are
/// digits, there is at least one, and the number fits.
pub(crate) fn parse_digits(v: &Vec<char>, from: usize) -> (r: Option<u64>)
    requires
        from <= v@.len(),
    ensures
        match r {
            Some(n) => v@.skip(from as int).len() > 0 && all_digits(v@.skip(from as int))
                && digits_value(v@.skip(from as int)) == n,
            None => v@.skip(from as int).len() == 0 || !all_digits(v@.skip(from as int))
                || digits_value(v@.skip(from as int)) > u64::MAX,
        },
{
    let ghost s = v@.skip(from as int);
    if from == v.len() {
        return None;
    }
    let mut n: u64 = 0;
    let mut fits: bool = true;
    let mut i: usize = from;
    while i < v.len()
        invariant
            from <= i <= v@.len(),
            s == v@.skip(from as int),
            forall|j: int| 0 <= j < i - from ==> is_digit(#[trigger] s[j]),
            fits ==> n == digits_value(s.take(i - from)),
            !fits ==> digits_value(s.take(i - from)) > u64::MAX,
        decreases v@.len() - i,
    {
        let c = v[i];
        if !(c >= '0' && c <= '9') {
            proof {
                assert(!is_digit(s[i - from]));
            }
            return None;
        }
        proof {
            assert(s[i - from] == c);
            assert(s.take(i - from + 1).drop_last() =~= s.take(i - from));
        }
        let d: u64 = (c as u32 - 48) as u64;
        if fits {
            match n.checked_mul(10) {
                Some(m) => match m.checked_add(d) {
                    Some(k) => {
                        n = k;
                    },
                    None => {
                        fits = false;
                    },
                },
                None => {
                    fits = false;
                },
            }
        }
        i = i + 1;
    }
    proof {
        assert(s.take(i - from) =~= s);
    }
    if fits {
        Some(n)
    } else {
        None
    }
}

/// The number that `s` writes, as `str::parse::<u64>` reads it.
pub(crate) fn parse_u64(s: &str) -> (r: Option<u64>)
    ensures
        match r {
            Some(n) => parsed_unsigned(s@, u64::MAX as nat) == Some(n as nat),
            None => parsed_unsigned(s@, u64::MAX as nat) is None,
        },
{
    let v = chars_of(s);
    let from: usize = if v.len() > 0 && v[0] == '+' {
        1
    } else {
        0
    };
    proof {
        assert(v@.skip(from as int) =~= without_plus(s@));
    }
    parse_digits(&v, from)
}

/// The number that `s` writes, as `str::parse::<i32>` reads it.
pub(crate) fn parse_i32(s: &str) -> (r: Option<i32>)
    ensures
        match r {
            Some(n) => parsed_signed(s@, i32::MIN as int, i32::MAX as int) == Some(n as int),
            None => parsed_signed(s@, i32::MIN as int, i32::MAX as int) is None,
        },
{
    let v = chars_of(s);
    let negative: bool = v.len() > 0 && v[0] == '-';
    let from: usize = if v.len() > 0 && (v[0] == '+' || v[0] == '-') {
        1
    } else {
        0
    };
    proof {
        assert(!negative ==> v@.skip(from as int) =~= without_plus(s@));
    }
    match parse_digits(&v, from) {
        Some(n) => {
            if negative && n <= 0x8000_0000 {
                Some((0 - n as i64) as i32)
            } else if !negative && n <= 0x7fff_ffff {
                Some(n as i32)
            } else {
                None
            }
        },
        None => None,
    }
}

/// Only the letters `A` to `Z` have a small form and only `a` to `z` a capital one, 32 apart, and
/// texts that differ in that alone are equal without regard to case.
pub proof fn law_case(c: char, a: Seq<char>, b: Seq<char>)
    ensures
        'A' <= c <= 'Z' ==> lower_ascii(c) as int == c as int + 32 && upper_ascii(lower_ascii(c))
            == c,
        'a' <= c <= 'z' ==> upper_ascii(c) as int == c as int - 32 && lower_ascii(upper_ascii(c))
            == c,
        !('A' <= c <= 'Z') ==> lower_ascii(c) == c,
        !('a' <= c <= 'z') ==> upper_ascii(c) == c,
        same_ignoring_case(a, b) <==> lowered(a) == lowered(b),
        lowered(a).len() == a.len(),
        uppered(a).len() == a.len(),
        same_ignoring_case(a, lowered(a)),
        same_ignoring_case(a, uppered(a)),
{
    assert forall|d: char| #[trigger] lower_ascii(lower_ascii(d)) == lower_ascii(d) && lower_ascii(
        upper_ascii(d),
    ) == lower_ascii(d) by {}
    if same_ignoring_case(a, b) {
        assert(lowered(a) =~= lowered(b));
    }
    if lowered(a) == lowered(b) {
        assert(a.len() == lowered(a).len() && b.len() == lowered(b).len());
        assert forall|i: int| 0 <= i < a.len() implies lower_ascii(#[trigger] a[i]) == lower_ascii(
            b[i],
        ) by {
            assert(lowered(a)[i] == lower_ascii(a[i]));
            assert(lowered(b)[i] == lower_ascii(b[i]));
        }
    }
    assert forall|i: int| 0 <= i < a.len() implies lower_ascii(#[trigger] a[i]) == lower_ascii(
        uppered(a)[i],
    ) by {
        assert(lower_ascii(lower_ascii(a[i])) == lower_ascii(a[i]));
    }
}

proof fn lemma_trim_start(s: Seq<char>) -> (n: int)
    ensures
        0 <= n <= s.len(),
        trim_start(s) == s.skip(n),
        blank(s.take(n)),
        n < s.len() ==> !is_space(s[n]),
    decreases s.len(),
{
    if s.len() > 0 && is_space(s[0]) {
        let m = lemma_trim_start(s.skip(1));
        assert(s.skip(1).skip(m) =~= s.skip(m + 1));
        assert forall|i: int| 0 <= i < m + 1 implies is_space(#[trigger] s.take(m + 1)[i]) by {
            if i > 0 {
                assert(s.skip(1).take(m)[i - 1] == s[i]);
            }
        }
        m + 1
    } else {
        assert(s.skip(0) =~= s);
        0
    }
}

proof fn lemma_trim_end(s: Seq<char>) -> (n: int)
    ensures
        0 <= n <= s.len(),
        trim_end(s) == s.take(n),
        blank(s.skip(n)),
        n > 0 ==> !is_space(s[n - 1]),
    decreases s.len(),
{
    if s.len() > 0 && is_space(s.last()) {
        let m = lemma_trim_end(s.drop_last());
        assert(s.drop_last().take(m) =~= s.take(m));
        assert forall|i: int| 0 <= i < s.len() - m implies is_space(#[trigger] s.skip(m)[i]) by {
            if i < s.len() - 1 - m {
                assert(s.drop_last().skip(m)[i] == s.skip(m)[i]);
            }
        }
        m
    } else {
        assert(s.take(s.len() as int) =~= s);
        s.len() as int
    }
}

/// Trimming takes white space off both ends and nothing else.
pub proof fn law_trimmed(s: Seq<char>)
    ensures
        trimmed(s).len() > 0 ==> !is_space(trimmed(s)[0]) && !is_space(trimmed(s).last()),
        exists|before: Seq<char>, after: Seq<char>|
            blank(before) && blank(after) && s == #[trigger] (before + (trimmed(s) + after)),
{
    let n = lemma_trim_start(s);
    let middle = trim_start(s);
    let m = lemma_trim_end(middle);
    let before = s.take(n);
    let after = middle.skip(m);
    assert(before + (trimmed(s) + after) =~= s);
    if trimmed(s).len() > 0 {
        assert(trimmed(s)[0] == middle[0]);
        assert(middle[0] == s[n]);
    }
}

/// A number that fits is read from its digits, with a sign or without, and one that does not fit
/// is not; nothing is read from a sign alone.
pub proof fn law_numbers_are_read(n: nat, max: nat)
    ensures
        parsed_unsigned(decimal(n), max) == if n <= max {
            Some(n)
        } else {
            None
        },
        parsed_unsigned(seq!['+'] + decimal(n), max) == parsed_unsigned(decimal(n), max),
        parsed_unsigned(seq!['-'] + decimal(n), max) is None,
        parsed_unsigned(Seq::empty(), max) is None,
        parsed_unsigned(seq!['+'], max) is None,
        parsed_signed(seq!['-'] + decimal(n), -(max as int), max as int) == if n <= max {
            Some(-(n as int))
        } else {
            None
        },
        parsed_signed(decimal(n), -(max as int), max as int) == if n <= max {
            Some(n as int)
        } else {
            None
        },
        parsed_signed(seq!['-'], -(max as int), max as int) is None,
{
    let digits = decimal(n);
    crate::ascii::lemma_padded_digits(n, 0);
    crate::ascii::lemma_decimal_value(n);
    assert(crate::ascii::padded(n, 0) =~= digits);
    assert(is_digit(digits[0]));
    let plus = seq!['+'] + digits;
    let minus = seq!['-'] + digits;
    assert(plus.skip(1) =~= digits);
    assert(minus.skip(1) =~= digits);
    assert(!is_digit(minus[0]));
    assert(seq!['+'].skip(1) =~= Seq::empty());
    assert(seq!['-'].skip(1) =~= Seq::empty());
}

/// A text is read word by word: what stands before white space is a word, what follows it is read
/// in the same way, and white space in front does not matter.
pub proof fn law_words(word: Seq<char>, space: char, rest: Seq<char>)
    requires
        word.len() > 0,
        forall|i: int| 0 <= i < word.len() ==> !is_space(#[trigger] word[i]),
        is_space(space),
    ensures
        words_of(word) == seq![word],
        words_of(word + seq![space] + rest) == seq![word] + words_of(rest),
        words_of(seq![space] + rest) == words_of(rest),
        words_of(Seq::empty()) == Seq::<Seq<char>>::empty(),
{
    lemma_word_len_at(word, word.len() as int);
    assert(trim_start(word) == word);
    assert(word.take(word.len() as int) =~= word);
    let none = word.skip(word.len() as int);
    assert(none =~= Seq::<char>::empty());
    assert(words_of(none) =~= Seq::empty());
    assert(words_of(word) =~= seq![word]);
    let text = word + seq![space] + rest;
    assert(text[0] == word[0]);
    assert(trim_start(text) == text);
    assert forall|i: int| 0 <= i < word.len() implies !is_space(#[trigger] text[i]) by {
        assert(text[i] == word[i]);
    }
    lemma_word_len_at(text, word.len() as int);
    assert(text.take(word.len() as int) =~= word);
    let after = text.skip(word.len() as int);
    assert(after =~= seq![space] + rest);
    let led = seq![space] + rest;
    assert(led.skip(1) =~= rest);
    assert(trim_start(led) == trim_start(rest));
    assert(words_of(led) == words_of(rest));
}

proof fn lemma_word_len_at(s: Seq<char>, at: int)
    requires
        0 <= at <= s.len(),
        at < s.len() ==> is_space(s[at]),
        forall|i: int| 0 <= i < at ==> !is_space(#[trigger] s[i]),
    ensures
        word_len(s) == at,
    decreases s.len(),
{
    if at > 0 {
        assert(!is_space(s[0]));
        assert forall|i: int| 0 <= i < at - 1 implies !is_space(#[trigger] s.skip(1)[i]) by {
            assert(!is_space(s[i + 1]));
        }
        lemma_word_len_at(s.skip(1), at - 1);
    }
}

/// White space is the twenty-five characters that Unicode counts as such: the tab to the carriage
/// return, the space, the next line, and the spaces and separators beyond ASCII.
pub proof fn law_white_space(c: char)
    ensures
        (c as int) < 128 ==> (is_space(c) <==> c == ' ' || c == '\t' || c == '\n' || c == '\r' || c
            as int == 11 || c as int == 12),
        c as int >= 128 ==> (is_space(c) <==> c as int == 133 || c as int == 160 || c as int == 5760
            || 8192 <= c as int <= 8202 || c as int == 8232 || c as int == 8233 || c as int == 8239
            || c as int == 8287 || c as int == 12288),
{
}

} // verus!
