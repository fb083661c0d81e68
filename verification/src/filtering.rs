//! Facts about `Seq::filter` and row replacement that the cascading deletes
//! and in-place updates rely on.

use vstd::prelude::*;

verus! {

/// Filtering distributes over `push`: the pushed element stays exactly when
/// it satisfies the predicate.
pub proof fn lemma_filter_push<A>(s: Seq<A>, x: A, pred: spec_fn(A) -> bool)
    ensures
        s.push(x).filter(pred) == if pred(x) {
            s.filter(pred).push(x)
        } else {
            s.filter(pred)
        },
{
    reveal(Seq::filter);
    assert(s.push(x).drop_last() =~= s);
    assert(s.push(x).last() == x);
}

/// Every element of a filtered sequence occurs in the original sequence.
pub proof fn lemma_filter_members<A>(s: Seq<A>, pred: spec_fn(A) -> bool)
    ensures
        forall|i: int|
            0 <= i < s.filter(pred).len() ==> s.contains(#[trigger] s.filter(pred)[i]),
    decreases s.len(),
{
    reveal(Seq::filter);
    if s.len() > 0 {
        let dl = s.drop_last();
        let out = s.filter(pred);
        lemma_filter_members(dl, pred);
        assert forall|i: int| 0 <= i < out.len() implies s.contains(#[trigger] out[i]) by {
            if pred(s.last()) && i == out.len() - 1 {
                assert(out[i] == s[s.len() - 1]);
                assert(s.contains(s[s.len() - 1]));
            } else {
                assert(out[i] == dl.filter(pred)[i]);
                assert(dl.contains(out[i]));
                let k = choose|k: int| 0 <= k < dl.len() && dl[k] == out[i];
                assert(s[k] == out[i]);
                assert(s.contains(s[k]));
            }
        }
    }
}

/// Filtering a sequence whose elements carry pairwise-distinct keys yields a
/// sequence whose elements again carry pairwise-distinct keys.
pub proof fn lemma_filter_distinct_keys<A, K>(
    s: Seq<A>,
    pred: spec_fn(A) -> bool,
    key: spec_fn(A) -> K,
)
    requires
        forall|i: int, j: int|
            0 <= i < j < s.len() ==> key(#[trigger] s[i]) != key(#[trigger] s[j]),
    ensures
        forall|i: int, j: int|
            0 <= i < j < s.filter(pred).len() ==> key(#[trigger] s.filter(pred)[i]) != key(
                #[trigger] s.filter(pred)[j],
            ),
    decreases s.len(),
{
    reveal(Seq::filter);
    if s.len() > 0 {
        let dl = s.drop_last();
        let out = s.filter(pred);
        assert(forall|i: int, j: int|
            0 <= i < j < dl.len() ==> key(#[trigger] dl[i]) != key(#[trigger] dl[j]));
        lemma_filter_distinct_keys(dl, pred, key);
        lemma_filter_members(dl, pred);
        assert forall|i: int, j: int| 0 <= i < j < out.len() implies key(#[trigger] out[i]) != key(
            #[trigger] out[j],
        ) by {
            if pred(s.last()) && j == out.len() - 1 {
                assert(out[j] == s[s.len() - 1]);
                assert(out[i] == dl.filter(pred)[i]);
                assert(dl.contains(out[i]));
                let k = choose|k: int| 0 <= k < dl.len() && dl[k] == out[i];
                assert(s[k] == out[i]);
                assert(key(s[k]) != key(s[s.len() - 1]));
            } else {
                assert(out[i] == dl.filter(pred)[i]);
                assert(out[j] == dl.filter(pred)[j]);
            }
        }
    }
}

/// Removing the row at `i` and inserting a replacement at the same position
/// is the same as updating the row in place.
pub proof fn lemma_remove_insert_is_update<A>(s: Seq<A>, i: int, x: A)
    requires
        0 <= i < s.len(),
    ensures
        s.remove(i).insert(i, x) == s.update(i, x),
{
    assert(s.remove(i).insert(i, x) =~= s.update(i, x));
}

} // verus!
