//! Stable ordering by lexicographic keys.

use vstd::prelude::*;

use crate::text::chars_of;

verus! {

/// Whether a key stands before another one: at the first place where they differ it is
/// smaller, or it ends there.
pub open spec fn precedes(a: Seq<u32>, b: Seq<u32>) -> bool
    decreases a.len(),
{
    if b.len() == 0 {
        false
    } else if a.len() == 0 {
        true
    } else if a[0] != b[0] {
        a[0] < b[0]
    } else {
        precedes(a.skip(1), b.skip(1))
    }
}

/// The key by which texts are ordered: their characters.
pub open spec fn text_key(s: Seq<char>) -> Seq<u32> {
    s.map_values(|c: char| c as u32)
}

/// How many of the leading indices have keys that do not stand behind `key`.
pub open spec fn not_behind(order: Seq<int>, keys: Seq<Seq<u32>>, key: Seq<u32>) -> nat
    decreases order.len(),
{
    if order.len() == 0 || precedes(key, keys[order[0]]) {
        0
    } else {
        1 + not_behind(order.skip(1), keys, key)
    }
}

/// The indices of the first `n` keys in the order of their keys; equal keys keep their order.
pub open spec fn sorted_indices(keys: Seq<Seq<u32>>, n: nat) -> Seq<int>
    decreases n,
{
    if n == 0 {
        Seq::empty()
    } else {
        let earlier = sorted_indices(keys, (n - 1) as nat);
        let at = not_behind(earlier, keys, keys[n - 1]) as int;
        earlier.take(at) + seq![n - 1] + earlier.skip(at)
    }
}

/// Items in the order of their keys; items with equal keys keep their order.
pub open spec fn in_order<T>(items: Seq<T>, keys: Seq<Seq<u32>>) -> Seq<T> {
    sorted_indices(keys, keys.len()).map_values(|i: int| items[i])
}

/// The keys of a vector.
pub open spec fn key_seqs(keys: Seq<Vec<u32>>) -> Seq<Seq<u32>> {
    keys.map_values(|k: Vec<u32>| k@)
}

/// The key of a text.
pub(crate) fn key_of_text(s: &str) -> (r: Vec<u32>)
    ensures
        r@ == text_key(s@),
{
    let v = chars_of(s);
    let mut key: Vec<u32> = Vec::new();
    let mut i: usize = 0;
    while i < v.len()
        invariant
            i <= v@.len(),
            v@ == s@,
            key@ =~= text_key(v@.take(i as int)),
        decreases v@.len() - i,
    {
        key.push(v[i] as u32);
        i = i + 1;
    }
    proof {
        assert(v@.take(i as int) =~= v@);
    }
    key
}

/// Whether a key stands before another one.
pub(crate) fn is_before(a: &Vec<u32>, b: &Vec<u32>) -> (r: bool)
    ensures
        r == precedes(a@, b@),
{
    let mut i: usize = 0;
    proof {
        assert(a@.skip(0) =~= a@);
        assert(b@.skip(0) =~= b@);
    }
    loop
        invariant
            i <= a@.len(),
            i <= b@.len(),
            precedes(a@, b@) == precedes(a@.skip(i as int), b@.skip(i as int)),
        decreases a@.len() - i,
    {
        if i >= b.len() {
            return false;
        }
        if i >= a.len() {
            return true;
        }
        if a[i] != b[i] {
            return a[i] < b[i];
        }
        proof {
            assert(a@.skip(i as int).skip(1) =~= a@.skip(i + 1));
            assert(b@.skip(i as int).skip(1) =~= b@.skip(i + 1));
        }
        i = i + 1;
    }
}

/// The indices of a vector, as integers.
pub open spec fn indices(v: Seq<usize>) -> Seq<int> {
    v.map_values(|i: usize| i as int)
}

/// The indices of the keys in the order of the keys; equal keys keep their order.
pub(crate) fn sort_keys(keys: &Vec<Vec<u32>>) -> (r: Vec<usize>)
    ensures
        indices(r@) == sorted_indices(key_seqs(keys@), keys@.len()),
        forall|i: int| 0 <= i < r@.len() ==> #[trigger] r@[i] < keys@.len(),
        r@.len() == keys@.len(),
{
    let ghost all = key_seqs(keys@);
    let mut order: Vec<usize> = Vec::new();
    let mut n: usize = 0;
    proof {
        assert(indices(order@) =~= Seq::empty());
    }
    while n < keys.len()
        invariant
            n <= keys@.len(),
            all == key_seqs(keys@),
            indices(order@) == sorted_indices(all, n as nat),
            order@.len() == n,
            forall|i: int| 0 <= i < order@.len() ==> #[trigger] order@[i] < n,
        decreases keys@.len() - n,
    {
        let ghost earlier = indices(order@);
        let mut at: usize = 0;
        proof {
            assert(earlier.skip(0) =~= earlier);
        }
        while at < order.len() && !is_before(&keys[n], &keys[order[at]])
            invariant
                n < keys@.len(),
                all == key_seqs(keys@),
                earlier == indices(order@),
                at <= order@.len(),
                forall|i: int| 0 <= i < order@.len() ==> #[trigger] order@[i] < n,
                not_behind(earlier, all, all[n as int]) == at + not_behind(
                    earlier.skip(at as int),
                    all,
                    all[n as int],
                ),
            decreases order@.len() - at,
        {
            proof {
                assert(earlier.skip(at as int)[0] == order@[at as int]);
                assert(earlier.skip(at as int).skip(1) =~= earlier.skip(at + 1));
            }
            at = at + 1;
        }
        proof {
            if at < order@.len() {
                assert(earlier.skip(at as int)[0] == order@[at as int]);
            } else {
                assert(earlier.skip(at as int) =~= Seq::empty());
            }
        }
        order.insert(at, n);
        proof {
            assert(indices(order@) =~= earlier.take(at as int) + seq![n as int] + earlier.skip(
                at as int,
            ));
        }
        n = n + 1;
    }
    order
}

/// The order is strict and total.
pub proof fn lemma_precedes_strict(a: Seq<u32>, b: Seq<u32>)
    ensures
        !precedes(a, a),
        precedes(a, b) ==> !precedes(b, a),
        precedes(a, b) || precedes(b, a) || a == b,
    decreases a.len(),
{
    if a.len() > 0 {
        lemma_precedes_strict(
            a.skip(1),
            if b.len() > 0 {
                b.skip(1)
            } else {
                b
            },
        );
        if b.len() > 0 && a[0] == b[0] && a.skip(1) == b.skip(1) {
            assert(a =~= seq![a[0]] + a.skip(1));
            assert(b =~= seq![b[0]] + b.skip(1));
        }
    } else if b.len() == 0 {
        assert(a =~= b);
    }
}

/// The order is transitive.
pub proof fn lemma_precedes_through(a: Seq<u32>, b: Seq<u32>, c: Seq<u32>)
    requires
        !precedes(b, a),
        !precedes(c, b),
    ensures
        !precedes(c, a),
    decreases a.len(),
{
    lemma_precedes_strict(a, b);
    lemma_precedes_strict(b, c);
    if a.len() > 0 && b.len() > 0 && c.len() > 0 && a[0] == b[0] && b[0] == c[0] {
        lemma_precedes_through(a.skip(1), b.skip(1), c.skip(1));
    }
}

/// Where a new index goes: everything before it has a key that does not stand behind, and what
/// comes after it has a key that does.
proof fn lemma_not_behind(order: Seq<int>, keys: Seq<Seq<u32>>, key: Seq<u32>)
    ensures
        not_behind(order, keys, key) <= order.len(),
        forall|i: int|
            0 <= i < not_behind(order, keys, key) ==> !precedes(key, keys[#[trigger] order[i]]),
        not_behind(order, keys, key) < order.len() ==> precedes(
            key,
            keys[order[not_behind(order, keys, key) as int]],
        ),
    decreases order.len(),
{
    if order.len() > 0 && !precedes(key, keys[order[0]]) {
        lemma_not_behind(order.skip(1), keys, key);
        let rest = order.skip(1);
        assert forall|i: int| 0 <= i < not_behind(order, keys, key) implies !precedes(
            key,
            keys[#[trigger] order[i]],
        ) by {
            if i > 0 {
                assert(order[i] == rest[i - 1]);
            }
        }
    }
}

/// Sorted indices are those of all keys, each once, in the order of the keys; equal keys keep
/// their order.
pub proof fn law_sorted(keys: Seq<Seq<u32>>, n: nat)
    requires
        n <= keys.len(),
    ensures
        sorted_indices(keys, n).len() == n,
        forall|i: int| 0 <= i < n ==> 0 <= #[trigger] sorted_indices(keys, n)[i] < n,
        forall|i: int, j: int|
            0 <= i < j < n ==> {
                let a = #[trigger] sorted_indices(keys, n)[i];
                let b = #[trigger] sorted_indices(keys, n)[j];
                &&& a != b
                &&& !precedes(keys[b], keys[a])
                &&& keys[a] == keys[b] ==> a < b
            },
        forall|k: int| 0 <= k < n ==> #[trigger] sorted_indices(keys, n).contains(k),
    decreases n,
{
    assert forall|k: int| 0 <= k < n implies #[trigger] sorted_indices(keys, n).contains(k) by {
        lemma_sorted_covers(keys, n, k);
    }
    if n > 0 {
        let m = (n - 1) as nat;
        law_sorted(keys, m);
        let earlier = sorted_indices(keys, m);
        let key = keys[m as int];
        lemma_not_behind(earlier, keys, key);
        let at = not_behind(earlier, keys, key) as int;
        let all = sorted_indices(keys, n);
        assert forall|i: int| 0 <= i < n implies 0 <= #[trigger] all[i] < n by {
            if i < at {
                assert(all[i] == earlier[i]);
            } else if i > at {
                assert(all[i] == earlier[i - 1]);
            }
        }
        assert forall|i: int, j: int| 0 <= i < j < n implies {
            let a = #[trigger] all[i];
            let b = #[trigger] all[j];
            &&& a != b
            &&& !precedes(keys[b], keys[a])
            &&& keys[a] == keys[b] ==> a < b
        } by {
            let a = all[i];
            let b = all[j];
            if i < at {
                assert(a == earlier[i]);
            } else if i > at {
                assert(a == earlier[i - 1]);
            }
            if j < at {
                assert(b == earlier[j]);
            } else if j > at {
                assert(b == earlier[j - 1]);
            }
            if i == at {
                let next = earlier[at];
                lemma_precedes_strict(key, keys[next]);
                lemma_precedes_strict(key, keys[b]);
                if j - 1 > at {
                    lemma_precedes_through(key, keys[next], keys[b]);
                    if keys[b] == key {
                        lemma_precedes_strict(keys[next], keys[b]);
                    }
                }
            } else if j == at {
                lemma_precedes_strict(key, keys[a]);
            }
        }
    }
}

/// Every index is among the sorted ones.
proof fn lemma_sorted_covers(keys: Seq<Seq<u32>>, n: nat, k: int)
    requires
        n <= keys.len(),
        0 <= k < n,
    ensures
        sorted_indices(keys, n).contains(k),
    decreases n,
{
    let earlier = sorted_indices(keys, (n - 1) as nat);
    let at = not_behind(earlier, keys, keys[n - 1]) as int;
    lemma_not_behind(earlier, keys, keys[n - 1]);
    let order = sorted_indices(keys, n);
    if k == n - 1 {
        assert(order[at] == k);
    } else {
        lemma_sorted_covers(keys, (n - 1) as nat, k);
        let i = earlier.index_of(k);
        if i < at {
            assert(order[i] == k);
        } else {
            assert(order[i + 1] == k);
        }
    }
}

/// Texts are ordered by their first differing character, and a text comes before those it starts.
pub proof fn law_text_order(a: Seq<char>, b: Seq<char>, common: Seq<char>, x: char, y: char)
    ensures
        precedes(text_key(common + seq![x] + a), text_key(common + seq![y] + b)) <==> if x == y {
            precedes(text_key(a), text_key(b))
        } else {
            x < y
        },
        precedes(text_key(common), text_key(common + seq![x] + a)),
        !precedes(text_key(common), text_key(common)),
    decreases common.len(),
{
    let left = text_key(common + seq![x] + a);
    let right = text_key(common + seq![y] + b);
    if common.len() == 0 {
        assert(common + seq![x] + a =~= seq![x] + a);
        assert(common + seq![y] + b =~= seq![y] + b);
        assert(left.skip(1) =~= text_key(a));
        assert(right.skip(1) =~= text_key(b));
        assert(text_key(common) =~= Seq::empty());
    } else {
        let rest = common.skip(1);
        law_text_order(a, b, rest, x, y);
        assert(left.skip(1) =~= text_key(rest + seq![x] + a));
        assert(right.skip(1) =~= text_key(rest + seq![y] + b));
        assert(text_key(common).skip(1) =~= text_key(rest));
    }
}

} // verus!
