//! The shape of Kenwood CAT frames, shared by the native backend and the client dialects.

use vstd::prelude::*;

use crate::ascii::ascii;
use crate::ascii::padded;
use crate::ascii::push_ascii;
use crate::ascii::push_padded;

verus! {

/// The byte that ends a frame.
pub const TERMINATOR: u8 = 0x3b;

/// How many bytes of `s` stand before the first `b`.
pub open spec fn until(s: Seq<u8>, b: u8) -> nat
    decreases s.len(),
{
    if s.len() == 0 || s[0] == b {
        0
    } else {
        1 + until(s.skip(1), b)
    }
}

/// Whether a byte is an ASCII letter.
pub open spec fn is_letter(b: u8) -> bool {
    0x41 <= b <= 0x5a || 0x61 <= b <= 0x7a
}

/// How many letters `s` starts with.
pub open spec fn letters(s: Seq<u8>) -> nat
    decreases s.len(),
{
    if s.len() == 0 || !is_letter(s[0]) {
        0
    } else {
        1 + letters(s.skip(1))
    }
}

/// The verb and the payload of a frame: its leading letters, and what stands between them
/// and the terminator. A frame without leading letters has neither.
pub open spec fn parts(frame: Seq<u8>) -> Option<(Seq<u8>, Seq<u8>)> {
    let body = frame.take(until(frame, TERMINATOR) as int);
    let n = letters(body);
    if n == 0 {
        None
    } else {
        Some((body.take(n as int), body.skip(n as int)))
    }
}

/// A frame with a verb, a number of eleven digits or more, and the terminator.
pub open spec fn number_frame(verb: Seq<u8>, n: nat) -> Seq<u8> {
    verb + ascii(padded(n, 11)) + seq![TERMINATOR]
}

/// A frame with a verb, one byte, and the terminator.
pub open spec fn byte_frame(verb: Seq<char>, b: u8) -> Seq<u8> {
    ascii(verb) + seq![b, TERMINATOR]
}

/// `until` stays within the sequence and stops at the byte.
pub proof fn lemma_until(s: Seq<u8>, b: u8)
    ensures
        until(s, b) <= s.len(),
        until(s, b) < s.len() ==> s[until(s, b) as int] == b,
        forall|i: int| 0 <= i < until(s, b) ==> #[trigger] s[i] != b,
    decreases s.len(),
{
    if s.len() > 0 && s[0] != b {
        lemma_until(s.skip(1), b);
        assert forall|i: int| 0 <= i < until(s, b) implies #[trigger] s[i] != b by {
            if i > 0 {
                assert(s.skip(1)[i - 1] == s[i]);
            }
        }
    }
}

/// The first `b` of a sequence is found where it stands.
pub proof fn lemma_until_at(s: Seq<u8>, b: u8, at: int)
    requires
        0 <= at < s.len(),
        s[at] == b,
        forall|i: int| 0 <= i < at ==> #[trigger] s[i] != b,
    ensures
        until(s, b) == at,
    decreases s.len(),
{
    if at > 0 {
        assert(s[0] != b);
        assert forall|i: int| 0 <= i < at - 1 implies #[trigger] s.skip(1)[i] != b by {
            assert(s[i + 1] != b);
        }
        lemma_until_at(s.skip(1), b, at - 1);
    }
}

/// `letters` stays within the sequence and counts letters only.
pub proof fn lemma_letters(s: Seq<u8>)
    ensures
        letters(s) <= s.len(),
        letters(s) < s.len() ==> !is_letter(s[letters(s) as int]),
        forall|i: int| 0 <= i < letters(s) ==> is_letter(#[trigger] s[i]),
    decreases s.len(),
{
    if s.len() > 0 && is_letter(s[0]) {
        lemma_letters(s.skip(1));
        assert forall|i: int| 0 <= i < letters(s) implies is_letter(#[trigger] s[i]) by {
            if i > 0 {
                assert(s.skip(1)[i - 1] == s[i]);
            }
        }
    }
}

/// The letters that a sequence starts with end where the first other byte stands.
pub proof fn lemma_letters_at(s: Seq<u8>, at: int)
    requires
        0 <= at <= s.len(),
        at < s.len() ==> !is_letter(s[at]),
        forall|i: int| 0 <= i < at ==> is_letter(#[trigger] s[i]),
    ensures
        letters(s) == at,
    decreases s.len(),
{
    if at > 0 {
        assert(is_letter(s[0]));
        assert forall|i: int| 0 <= i < at - 1 implies is_letter(#[trigger] s.skip(1)[i]) by {
            assert(is_letter(s[i + 1]));
        }
        lemma_letters_at(s.skip(1), at - 1);
    }
}

/// A frame made of a verb and a payload has that verb and that payload.
pub proof fn law_parts_of_frame(verb: Seq<u8>, payload: Seq<u8>)
    requires
        verb.len() > 0,
        forall|i: int| 0 <= i < verb.len() ==> is_letter(#[trigger] verb[i]),
        payload.len() > 0 ==> !is_letter(payload[0]),
        forall|i: int| 0 <= i < payload.len() ==> #[trigger] payload[i] != TERMINATOR,
    ensures
        parts(verb + payload + seq![TERMINATOR]) == Some((verb, payload)),
{
    let frame = verb + payload + seq![TERMINATOR];
    let at = (verb.len() + payload.len()) as int;
    assert forall|i: int| 0 <= i < at implies #[trigger] frame[i] != TERMINATOR by {
        if i < verb.len() {
            assert(frame[i] == verb[i]);
            assert(is_letter(verb[i]));
        } else {
            assert(frame[i] == payload[i - verb.len()]);
        }
    }
    lemma_until_at(frame, TERMINATOR, at);
    let body = frame.take(at);
    assert(body =~= verb + payload);
    assert forall|i: int| 0 <= i < verb.len() implies is_letter(#[trigger] body[i]) by {
        assert(body[i] == verb[i]);
    }
    lemma_letters_at(body, verb.len() as int);
    assert(body.take(verb.len() as int) =~= verb);
    assert(body.skip(verb.len() as int) =~= payload);
}

/// Split a `;`-terminated frame into its leading alphabetic verb and the remaining payload.
#[must_use]
pub fn split_frame<'a>(frame: &'a [u8]) -> (r: Option<(&'a [u8], &'a [u8])>)
    ensures
        match r {
            Some((verb, payload)) => parts(frame@) == Some((verb@, payload@)),
            None => parts(frame@) is None,
        },
{
    let len: usize = frame.len();
    let mut end: usize = 0;
    proof {
        assert(frame@.skip(0) =~= frame@);
    }
    while end < len && frame[end] != TERMINATOR
        invariant
            len == frame@.len(),
            end <= len,
            until(frame@, TERMINATOR) == end + until(frame@.skip(end as int), TERMINATOR),
        decreases len - end,
    {
        proof {
            assert(frame@.skip(end as int).skip(1) =~= frame@.skip(end + 1));
        }
        end = end + 1;
    }
    let body = vstd::slice::slice_subrange(frame, 0, end);
    proof {
        assert(body@ =~= frame@.take(until(frame@, TERMINATOR) as int));
        assert(body@.skip(0) =~= body@);
    }
    let mut n: usize = 0;
    while n < end && letter(body[n])
        invariant
            body@.len() == end,
            n <= end,
            letters(body@) == n + letters(body@.skip(n as int)),
        decreases end - n,
    {
        proof {
            assert(body@.skip(n as int).skip(1) =~= body@.skip(n + 1));
        }
        n = n + 1;
    }
    if n == 0 {
        return None;
    }
    let verb = vstd::slice::slice_subrange(body, 0, n);
    let payload = vstd::slice::slice_subrange(body, n, end);
    proof {
        assert(verb@ =~= body@.take(n as int));
        assert(payload@ =~= body@.skip(n as int));
    }
    Some((verb, payload))
}

fn letter(b: u8) -> (r: bool)
    ensures
        r == is_letter(b),
{
    (b >= 0x41 && b <= 0x5a) || (b >= 0x61 && b <= 0x7a)
}

/// Append a frame with a verb, a number of eleven digits or more, and the terminator.
pub(crate) fn push_number_frame(out: &mut Vec<u8>, verb: &str, n: u64)
    ensures
        final(out)@ == old(out)@ + number_frame(ascii(verb@), n as nat),
{
    push_ascii(out, verb);
    push_padded(out, n, 11);
    out.push(TERMINATOR);
    proof {
        assert(out@ =~= old(out)@ + number_frame(ascii(verb@), n as nat));
    }
}

/// Append a frame with a verb, one byte, and the terminator.
pub(crate) fn push_byte_frame(out: &mut Vec<u8>, verb: &str, b: u8)
    ensures
        final(out)@ == old(out)@ + byte_frame(verb@, b),
{
    push_ascii(out, verb);
    out.push(b);
    out.push(TERMINATOR);
    proof {
        assert(out@ =~= old(out)@ + byte_frame(verb@, b));
    }
}

} // verus!
