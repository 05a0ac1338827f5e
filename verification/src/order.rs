//! Stable ordering of items by a text key.

use vstd::prelude::*;
use vstd::relations::{sorted_by, total_ordering};
use vstd::seq_lib::{lemma_sorted_unique, to_multiset_build, to_multiset_insert};
use crate::text::{
    chars_le, lemma_text_le_antisymmetric, lemma_text_le_reflexive, lemma_text_le_total,
    lemma_text_le_transitive, text_le,
};

verus! {

/// The texts of a sequence of keys.
pub open spec fn key_texts(keys: Seq<Vec<char>>) -> Seq<Seq<char>> {
    keys.map_values(|k: Vec<char>| k@)
}

/// `order`, a list of indices into `keys`, with `k` put in behind the last
/// index whose key is less than or equal to the key of `k`.
pub open spec fn inserted(keys: Seq<Seq<char>>, order: Seq<usize>, k: usize) -> Seq<usize>
    decreases order.len(),
{
    if order.len() == 0 {
        seq![k]
    } else if text_le(keys[order.last() as int], keys[k as int]) {
        order.push(k)
    } else {
        inserted(keys, order.drop_last(), k).push(order.last())
    }
}

/// The first `n` indices, ordered by their keys; equal keys stay in the order
/// of their indices.
pub open spec fn sorted_upto(keys: Seq<Seq<char>>, n: nat) -> Seq<usize>
    decreases n,
{
    if n == 0 {
        Seq::empty()
    } else {
        inserted(keys, sorted_upto(keys, (n - 1) as nat), (n - 1) as usize)
    }
}

/// The indices of `keys`, ordered by their keys; equal keys stay in the order
/// of their indices.
pub open spec fn sorted_order(keys: Seq<Seq<char>>) -> Seq<usize> {
    sorted_upto(keys, keys.len())
}

/// Where `k` goes: `p` is the place behind the last key that is not greater.
pub proof fn lemma_inserted_at(keys: Seq<Seq<char>>, order: Seq<usize>, k: usize, p: int)
    requires
        0 <= p <= order.len(),
        forall|i: int| p <= i < order.len() ==> !text_le(keys[#[trigger] order[i] as int], keys[k as int]),
        p == 0 || text_le(keys[order[p - 1] as int], keys[k as int]),
    ensures
        inserted(keys, order, k) == order.insert(p, k),
    decreases order.len(),
{
    if order.len() == 0 {
        assert(order.insert(p, k) =~= seq![k]);
    } else if p == order.len() {
        assert(order.insert(p, k) =~= order.push(k));
    } else {
        let front = order.drop_last();
        assert(!text_le(keys[order[order.len() - 1] as int], keys[k as int]));
        assert forall|i: int| p <= i < front.len() implies !text_le(
            keys[#[trigger] front[i] as int],
            keys[k as int],
        ) by {
            assert(front[i] == order[i]);
        }
        lemma_inserted_at(keys, front, k, p);
        assert(front.insert(p, k).push(order.last()) =~= order.insert(p, k));
    }
}

/// The indices of `keys` in the order of their keys. The sort is stable.
pub fn sort_order(keys: &Vec<Vec<char>>) -> (out: Vec<usize>)
    ensures
        out@ == sorted_order(key_texts(keys@)),
        out@.len() == keys@.len(),
        forall|i: int| 0 <= i < out@.len() ==> (#[trigger] out@[i]) < keys@.len(),
{
    let ghost kt = key_texts(keys@);
    let mut order: Vec<usize> = Vec::new();
    let mut k: usize = 0;
    while k < keys.len()
        invariant
            k <= keys.len(),
            kt == key_texts(keys@),
            order@ == sorted_upto(kt, k as nat),
            order@.len() == k,
            forall|i: int| 0 <= i < order@.len() ==> (#[trigger] order@[i]) < k,
        decreases keys.len() - k,
    {
        let mut p: usize = order.len();
        while p > 0 && !chars_le(&keys[order[p - 1]], &keys[k])
            invariant
                p <= order.len(),
                k < keys.len(),
                kt == key_texts(keys@),
                forall|i: int| 0 <= i < order@.len() ==> (#[trigger] order@[i]) < k,
                forall|i: int|
                    p <= i < order@.len() ==> !text_le(
                        kt[#[trigger] order@[i] as int],
                        kt[k as int],
                    ),
            decreases p,
        {
            p -= 1;
        }
        proof {
            lemma_inserted_at(kt, order@, k, p as int);
        }
        order.insert(p, k);
        k += 1;
    }
    order
}

/// The entries put in the order of their keys.
pub open spec fn ordered(keys: Seq<Seq<char>>, entries: Seq<Seq<char>>) -> Seq<Seq<char>> {
    sorted_order(keys).map_values(|i: usize| entries[i as int])
}

/// Where `inserted` puts `k`: behind the last index whose key is not greater.
pub open spec fn insert_position(keys: Seq<Seq<char>>, order: Seq<usize>, k: usize) -> int
    decreases order.len(),
{
    if order.len() == 0 {
        0
    } else if text_le(keys[order.last() as int], keys[k as int]) {
        order.len() as int
    } else {
        insert_position(keys, order.drop_last(), k)
    }
}

/// `inserted` puts `k` at `insert_position`, behind a key that is not greater
/// and before keys that are all greater.
pub proof fn lemma_insert_position(keys: Seq<Seq<char>>, order: Seq<usize>, k: usize)
    ensures
        0 <= insert_position(keys, order, k) <= order.len(),
        inserted(keys, order, k) == order.insert(insert_position(keys, order, k), k),
        forall|i: int|
            insert_position(keys, order, k) <= i < order.len() ==> !text_le(
                keys[#[trigger] order[i] as int],
                keys[k as int],
            ),
        insert_position(keys, order, k) > 0 ==> text_le(
            keys[order[insert_position(keys, order, k) - 1] as int],
            keys[k as int],
        ),
    decreases order.len(),
{
    let p = insert_position(keys, order, k);
    if order.len() > 0 && !text_le(keys[order.last() as int], keys[k as int]) {
        let front = order.drop_last();
        lemma_insert_position(keys, front, k);
        assert forall|i: int| p <= i < order.len() implies !text_le(
            keys[#[trigger] order[i] as int],
            keys[k as int],
        ) by {
            if i < front.len() {
                assert(front[i] == order[i]);
            }
        }
        if p > 0 {
            assert(front[p - 1] == order[p - 1]);
        }
    }
    lemma_inserted_at(keys, order, k, p);
}

/// Whether `order` lists the indices `0..n`, each once, by ascending key,
/// equal keys by ascending index.
pub open spec fn is_stable_sort(keys: Seq<Seq<char>>, order: Seq<usize>, n: nat) -> bool {
    &&& order.len() == n
    &&& forall|i: int| 0 <= i < order.len() ==> (#[trigger] order[i]) < n
    &&& forall|i: int, j: int|
        0 <= i < j < order.len() ==> (#[trigger] order[i]) != (#[trigger] order[j])
    &&& forall|i: int, j: int|
        0 <= i < j < order.len() ==> text_le(
            keys[#[trigger] order[i] as int],
            keys[#[trigger] order[j] as int],
        )
    &&& forall|i: int, j: int|
        0 <= i < j < order.len() && keys[#[trigger] order[i] as int] == keys[#[trigger] order[j] as int]
            ==> order[i] < order[j]
}

/// `sorted_upto(keys, n)` is a stable sort of the first `n` indices.
pub proof fn lemma_sorted_upto(keys: Seq<Seq<char>>, n: nat)
    requires
        n <= keys.len(),
        n <= usize::MAX,
    ensures
        is_stable_sort(keys, sorted_upto(keys, n), n),
    decreases n,
{
    if n > 0 {
        let before = sorted_upto(keys, (n - 1) as nat);
        let k = (n - 1) as usize;
        lemma_sorted_upto(keys, (n - 1) as nat);
        lemma_insert_position(keys, before, k);
        let p = insert_position(keys, before, k);
        let after = before.insert(p, k);
        assert(after == sorted_upto(keys, n));
        assert forall|i: int| 0 <= i < after.len() implies (#[trigger] after[i]) < n by {
            if i < p {
                assert(after[i] == before[i]);
            } else if i > p {
                assert(after[i] == before[i - 1]);
            }
        }
        assert forall|i: int, j: int| 0 <= i < j < after.len() implies {
            &&& (#[trigger] after[i]) != (#[trigger] after[j])
            &&& text_le(keys[after[i] as int], keys[after[j] as int])
            &&& (keys[after[i] as int] == keys[after[j] as int] ==> after[i] < after[j])
        } by {
            let x = if i < p {
                before[i]
            } else {
                before[i - 1]
            };
            let y = if j < p {
                before[j]
            } else {
                before[j - 1]
            };
            if j == p {
                assert(after[i] == before[i] && after[j] == k);
                if i < p - 1 {
                    lemma_text_le_transitive(
                        keys[before[i] as int],
                        keys[before[p - 1] as int],
                        keys[k as int],
                    );
                }
            } else if i == p {
                assert(after[i] == k && after[j] == before[j - 1]);
                lemma_text_le_total(keys[before[j - 1] as int], keys[k as int]);
                lemma_text_le_reflexive(keys[k as int]);
            } else {
                assert(after[i] == x && after[j] == y);
            }
        }
    }
}

/// The order that `sort_order` gives lists every index once, by ascending
/// key, and keeps indices with equal keys in ascending order.
pub proof fn law_sorted_order_is_a_stable_sort(keys: Seq<Seq<char>>)
    requires
        keys.len() <= usize::MAX,
    ensures
        is_stable_sort(keys, sorted_order(keys), keys.len()),
{
    lemma_sorted_upto(keys, keys.len());
}

/// The order of texts as a relation.
pub open spec fn text_order() -> spec_fn(Seq<char>, Seq<char>) -> bool {
    |a: Seq<char>, b: Seq<char>| text_le(a, b)
}

/// The order of texts is a total order.
pub proof fn lemma_text_order_is_total()
    ensures
        total_ordering(text_order()),
{
    let r = text_order();
    assert forall|a: Seq<char>| #[trigger] r(a, a) by {
        lemma_text_le_reflexive(a);
    }
    assert forall|a: Seq<char>, b: Seq<char>| #[trigger] r(a, b) && #[trigger] r(b, a) implies a
        == b by {
        lemma_text_le_antisymmetric(a, b);
    }
    assert forall|a: Seq<char>, b: Seq<char>, c: Seq<char>| #[trigger]
        r(a, b) && #[trigger] r(b, c) implies r(a, c) by {
        lemma_text_le_transitive(a, b, c);
    }
    assert forall|a: Seq<char>, b: Seq<char>| #[trigger] r(a, b) || #[trigger] r(b, a) by {
        lemma_text_le_total(a, b);
    }
}

/// The keys at the indices of `order`.
pub open spec fn picked(keys: Seq<Seq<char>>, order: Seq<usize>) -> Seq<Seq<char>> {
    order.map_values(|i: usize| keys[i as int])
}

/// The keys at the first `n` sorted indices are the first `n` keys, reordered.
pub proof fn lemma_sorted_upto_keeps_keys(keys: Seq<Seq<char>>, n: nat)
    requires
        n <= keys.len(),
        n <= usize::MAX,
    ensures
        picked(keys, sorted_upto(keys, n)).to_multiset() == keys.take(n as int).to_multiset(),
    decreases n,
{
    if n > 0 {
        let before = sorted_upto(keys, (n - 1) as nat);
        let k = (n - 1) as usize;
        lemma_sorted_upto_keeps_keys(keys, (n - 1) as nat);
        lemma_insert_position(keys, before, k);
        let p = insert_position(keys, before, k);
        assert(picked(keys, before.insert(p, k)) =~= picked(keys, before).insert(p, keys[n - 1]));
        to_multiset_insert(picked(keys, before), p, keys[n - 1]);
        to_multiset_build(keys.take(n - 1), keys[n - 1]);
        assert(keys.take(n as int) =~= keys.take(n - 1).push(keys[n - 1]));
    } else {
        assert(picked(keys, sorted_upto(keys, 0)) =~= keys.take(0));
    }
}

/// Texts put in their own order are the same texts, each as often as
/// before, and stand in ascending order.
pub proof fn law_ordered_texts(keys: Seq<Seq<char>>)
    requires
        keys.len() <= usize::MAX,
    ensures
        ordered(keys, keys).to_multiset() == keys.to_multiset(),
        sorted_by(ordered(keys, keys), text_order()),
{
    lemma_sorted_upto_keeps_keys(keys, keys.len());
    lemma_sorted_upto(keys, keys.len());
    assert(keys.take(keys.len() as int) =~= keys);
    assert(ordered(keys, keys) =~= picked(keys, sorted_order(keys)));
}

/// The order in which a list of texts is given does not change what
/// ordering them yields.
pub proof fn law_ordering_ignores_given_order(a: Seq<Seq<char>>, b: Seq<Seq<char>>)
    requires
        a.to_multiset() == b.to_multiset(),
        a.len() <= usize::MAX,
        b.len() <= usize::MAX,
    ensures
        ordered(a, a) == ordered(b, b),
{
    law_ordered_texts(a);
    law_ordered_texts(b);
    lemma_text_order_is_total();
    lemma_sorted_unique(ordered(a, a), ordered(b, b), text_order());
}

} // verus!
