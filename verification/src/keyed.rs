//! Sequences in which an entry may carry a key, and no key occurs twice.

use vstd::prelude::*;

verus! {

/// No two entries of `s` carry the same key. Entries without a key are free.
pub open spec fn distinct_keys<A, K>(s: Seq<A>, key: spec_fn(A) -> Option<K>) -> bool {
    forall|i: int, j: int|
        #![trigger s[i], s[j]]
        0 <= i < j < s.len() && key(s[i]) is Some ==> key(s[i]) != key(s[j])
}

/// Whether some entry of `s` carries the key `k`.
pub open spec fn has_key<A, K>(s: Seq<A>, key: spec_fn(A) -> Option<K>, k: K) -> bool {
    exists|i: int| 0 <= i < s.len() && key(#[trigger] s[i]) == Some(k)
}

/// The test that an entry does not carry the key `k`.
pub open spec fn lacks<A, K>(key: spec_fn(A) -> Option<K>, k: K) -> spec_fn(A) -> bool {
    |a: A| key(a) != Some(k)
}

/// The entries of `s` that do not carry the key `k`, in their order.
pub open spec fn without_key<A, K>(s: Seq<A>, key: spec_fn(A) -> Option<K>, k: K) -> Seq<A> {
    s.filter(lacks(key, k))
}

/// Leaving entries out keeps the keys distinct.
pub proof fn lemma_filter_keeps_distinct<A, K>(
    s: Seq<A>,
    key: spec_fn(A) -> Option<K>,
    pred: spec_fn(A) -> bool,
)
    requires
        distinct_keys(s, key),
    ensures
        distinct_keys(s.filter(pred), key),
    decreases s.len(),
{
    reveal(Seq::filter);
    if s.len() > 0 {
        let front = s.drop_last();
        let kept = front.filter(pred);
        assert(distinct_keys(front, key)) by {
            assert forall|i: int, j: int|
                #![trigger front[i], front[j]]
                0 <= i < j < front.len() implies front[i] == s[i] && front[j] == s[j] by {}
        }
        lemma_filter_keeps_distinct(front, key, pred);
        if pred(s.last()) {
            let out = kept.push(s.last());
            assert forall|i: int, j: int|
                #![trigger out[i], out[j]]
                0 <= i < j < out.len() && key(out[i]) is Some implies key(out[i]) != key(
                out[j],
            ) by {
                if j == kept.len() {
                    // out[i] is an entry of `front`, and out[j] is the last entry of `s`
                    front.lemma_filter_contains_rev(pred, kept[i]);
                }
            }
        }
    }
}

/// Once the entries that carry `k` are left out, none carries it.
pub proof fn lemma_without_key_lacks<A, K>(s: Seq<A>, key: spec_fn(A) -> Option<K>, k: K)
    ensures
        !has_key(without_key(s, key, k), key, k),
{
    let kept = without_key(s, key, k);
    assert forall|i: int| 0 <= i < kept.len() implies key(#[trigger] kept[i]) != Some(k) by {
        s.lemma_filter_pred(lacks(key, k), i);
    }
}

/// An entry whose key no entry of `s` carries can be appended, and the keys
/// stay distinct.
pub proof fn lemma_push_keeps_distinct<A, K>(s: Seq<A>, key: spec_fn(A) -> Option<K>, a: A)
    requires
        distinct_keys(s, key),
        forall|i: int| 0 <= i < s.len() && key(a) is Some ==> key(#[trigger] s[i]) != key(a),
    ensures
        distinct_keys(s.push(a), key),
{
    let out = s.push(a);
    assert forall|i: int, j: int|
        #![trigger out[i], out[j]]
        0 <= i < j < out.len() && key(out[i]) is Some implies key(out[i]) != key(out[j]) by {
        assert(out[i] == s[i]);
        if j < s.len() {
            assert(out[j] == s[j]);
        }
    }
}

} // verus!
