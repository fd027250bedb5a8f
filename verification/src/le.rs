//! Little-endian numbers in byte sequences.

use vstd::prelude::*;

verus! {

/// The `count` low bytes of `x`, the lowest first.
pub open spec fn le_bytes(x: nat, count: nat) -> Seq<u8>
    decreases count,
{
    if count == 0 {
        Seq::empty()
    } else {
        seq![(x % 256) as u8] + le_bytes(x / 256, (count - 1) as nat)
    }
}

/// The number whose bytes are `s`, the lowest first.
pub open spec fn le_value(s: Seq<u8>) -> nat
    decreases s.len(),
{
    if s.len() == 0 {
        0
    } else {
        s[0] as nat + 256 * le_value(s.skip(1))
    }
}

/// The number of values that `count` bytes can hold.
pub open spec fn le_limit(count: nat) -> nat
    decreases count,
{
    if count == 0 {
        1
    } else {
        256 * le_limit((count - 1) as nat)
    }
}

/// `le_bytes` writes as many bytes as it is asked for.
pub proof fn lemma_le_bytes_len(x: nat, count: nat)
    ensures
        le_bytes(x, count).len() == count,
    decreases count,
{
    if count > 0 {
        lemma_le_bytes_len(x / 256, (count - 1) as nat);
    }
}

/// Reading back what was written gives the number that was written.
pub proof fn lemma_le_round_trip(x: nat, count: nat)
    requires
        x < le_limit(count),
    ensures
        le_value(le_bytes(x, count)) == x,
    decreases count,
{
    if count > 0 {
        let rest = le_bytes(x / 256, (count - 1) as nat);
        assert(x / 256 < le_limit((count - 1) as nat));
        lemma_le_round_trip(x / 256, (count - 1) as nat);
        assert(le_bytes(x, count).skip(1) =~= rest);
    }
}

/// A number read from `s` fits in the bytes of `s`.
pub proof fn lemma_le_value_limit(s: Seq<u8>)
    ensures
        le_value(s) < le_limit(s.len()),
    decreases s.len(),
{
    if s.len() > 0 {
        lemma_le_value_limit(s.skip(1));
    }
}

/// The limits of the integer types.
pub proof fn lemma_le_limits()
    ensures
        le_limit(2) == 0x1_0000,
        le_limit(4) == 0x1_0000_0000,
        le_limit(8) == 0x1_0000_0000_0000_0000,
{
    reveal_with_fuel(le_limit, 9);
}

/// Append the `count` low bytes of `x`.
pub(crate) fn push_le(out: &mut Vec<u8>, x: u64, count: usize)
    ensures
        final(out)@ == old(out)@ + le_bytes(x as nat, count as nat),
{
    let mut rest: u64 = x;
    let mut left: usize = count;
    proof {
        assert(out@ + le_bytes(x as nat, count as nat) =~= old(out)@ + le_bytes(x as nat, count as nat));
    }
    while left > 0
        invariant
            out@ + le_bytes(rest as nat, left as nat) == old(out)@ + le_bytes(x as nat, count as nat),
        decreases left,
    {
        let ghost before = out@;
        out.push((rest % 256) as u8);
        proof {
            assert(before + le_bytes(rest as nat, left as nat) =~= out@ + le_bytes(
                (rest / 256) as nat,
                (left - 1) as nat,
            ));
        }
        rest = rest / 256;
        left = left - 1;
    }
    proof {
        assert(out@ + le_bytes(rest as nat, 0) =~= out@);
    }
}

/// The number in the `count` bytes of `input` from `offset`.
pub(crate) fn read_le(input: &[u8], offset: usize, count: usize) -> (x: u64)
    requires
        offset + count <= input@.len(),
        count <= 8,
    ensures
        x == le_value(input@.subrange(offset as int, offset + count)),
        x < le_limit(count as nat),
{
    let len: usize = input.len();
    assert(offset + count <= len);
    let mut x: u64 = 0;
    let mut i: usize = offset + count;
    let ghost end = offset + count;
    while i > offset
        invariant
            offset <= i <= end <= input@.len(),
            end == offset + count,
            count <= 8,
            x == le_value(input@.subrange(i as int, end as int)),
        decreases i,
    {
        i = i - 1;
        proof {
            let s = input@.subrange(i as int, end as int);
            assert(s.skip(1) =~= input@.subrange(i + 1, end as int));
            lemma_le_value_limit(s);
            lemma_limit_monotone(s.len(), 8);
            lemma_le_limits();
        }
        x = x * 256 + input[i] as u64;
    }
    proof {
        lemma_le_value_limit(input@.subrange(offset as int, end as int));
    }
    x
}

proof fn lemma_limit_monotone(a: nat, b: nat)
    requires
        a <= b,
    ensures
        le_limit(a) <= le_limit(b),
    decreases b,
{
    if a < b {
        lemma_limit_monotone(a, (b - 1) as nat);
    }
}

} // verus!
