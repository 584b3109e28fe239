use vstd::prelude::*;

verus! {

/// The view of every element of a sequence, in order.
pub open spec fn view_seq<T: View>(s: Seq<T>) -> Seq<T::V> {
    s.map_values(|x: T| x@)
}

/// No two elements of `s` share a key.
pub open spec fn distinct_by<A, K>(s: Seq<A>, key: spec_fn(A) -> K) -> bool {
    forall|i: int, j: int|
        #![trigger s[i], s[j]]
        0 <= i < j < s.len() ==> key(s[i]) != key(s[j])
}

/// Some element of `s` has the key `k`.
pub open spec fn exists_key<A, K>(s: Seq<A>, key: spec_fn(A) -> K, k: K) -> bool {
    exists|i: int| 0 <= i < s.len() && key(#[trigger] s[i]) == k
}

/// Appending cannot lose a key, and appending an element adds its key.
pub proof fn lemma_exists_key_push<A, K>(s: Seq<A>, key: spec_fn(A) -> K, k: K, x: A)
    ensures
        exists_key(s, key, k) ==> exists_key(s.push(x), key, k),
        key(x) == k ==> exists_key(s.push(x), key, k),
        exists_key(s.push(x), key, k) ==> exists_key(s, key, k) || key(x) == k,
{
    if exists_key(s, key, k) {
        let i = choose|i: int| 0 <= i < s.len() && key(s[i]) == k;
        assert(key(s.push(x)[i]) == k);
    }
    if key(x) == k {
        assert(key(s.push(x)[s.len() as int]) == k);
    }
    if exists_key(s.push(x), key, k) {
        let i = choose|i: int| 0 <= i < s.push(x).len() && key(s.push(x)[i]) == k;
        if i < s.len() {
            assert(key(s[i]) == k);
        }
    }
}

/// A key survives a filter when every element with that key is kept.
pub proof fn lemma_exists_key_filter<A, K>(
    s: Seq<A>,
    key: spec_fn(A) -> K,
    k: K,
    pred: spec_fn(A) -> bool,
)
    requires
        exists_key(s, key, k),
        forall|i: int| 0 <= i < s.len() && key(#[trigger] s[i]) == k ==> pred(s[i]),
    ensures
        exists_key(s.filter(pred), key, k),
{
    let i = choose|i: int| 0 <= i < s.len() && key(s[i]) == k;
    lemma_filter_keeps(s, pred, i);
    let out = s.filter(pred);
    let j = choose|j: int| 0 <= j < out.len() && out[j] == s[i];
    assert(key(out[j]) == k);
}

/// Appending an element with a fresh key keeps keys distinct.
pub proof fn lemma_distinct_by_push<A, K>(s: Seq<A>, key: spec_fn(A) -> K, x: A)
    requires
        distinct_by(s, key),
        !exists_key(s, key, key(x)),
    ensures
        distinct_by(s.push(x), key),
{
    let out = s.push(x);
    assert forall|i: int, j: int|
        #![trigger out[i], out[j]]
        0 <= i < j < out.len() implies key(out[i]) != key(out[j]) by {
        if j < s.len() {
            assert(out[i] == s[i] && out[j] == s[j]);
        } else {
            assert(out[i] == s[i] && out[j] == x);
            assert(key(s[i]) != key(x)) by {
                if key(s[i]) == key(x) {
                    assert(exists_key(s, key, key(x)));
                }
            }
        }
    }
}

/// Filtering one more element either keeps it at the end or drops it.
pub proof fn lemma_filter_push<A>(s: Seq<A>, pred: spec_fn(A) -> bool, x: A)
    ensures
        s.push(x).filter(pred) == if pred(x) {
            s.filter(pred).push(x)
        } else {
            s.filter(pred)
        },
{
    reveal(Seq::filter);
    assert(s.push(x).drop_last() =~= s);
    assert(s.push(x).last() == x);
}

/// Every element of a filtered sequence occurs in the unfiltered one.
pub proof fn lemma_filter_elements<A>(s: Seq<A>, pred: spec_fn(A) -> bool)
    ensures
        forall|i: int|
            0 <= i < s.filter(pred).len() ==> s.contains(#[trigger] s.filter(pred)[i]) && pred(
                s.filter(pred)[i],
            ),
    decreases s.len(),
{
    reveal(Seq::filter);
    if s.len() > 0 {
        let t = s.drop_last();
        lemma_filter_elements(t, pred);
        assert forall|i: int| 0 <= i < t.filter(pred).len() implies s.contains(
            #[trigger] t.filter(pred)[i],
        ) by {
            let e = t.filter(pred)[i];
            let j = choose|j: int| 0 <= j < t.len() && t[j] == e;
            assert(s[j] == e);
        }
        if pred(s.last()) {
            assert(s.contains(s.last())) by {
                assert(s[s.len() - 1] == s.last());
            }
        }
    }
}

/// Filtering keeps keys distinct.
pub proof fn lemma_filter_distinct_by<A, K>(s: Seq<A>, pred: spec_fn(A) -> bool, key: spec_fn(
    A,
) -> K)
    requires
        distinct_by(s, key),
    ensures
        distinct_by(s.filter(pred), key),
    decreases s.len(),
{
    reveal(Seq::filter);
    if s.len() > 0 {
        let t = s.drop_last();
        assert(forall|i: int| 0 <= i < t.len() ==> t[i] == s[i]);
        lemma_filter_distinct_by(t, pred, key);
        if pred(s.last()) {
            lemma_filter_elements(t, pred);
            assert forall|i: int| 0 <= i < t.filter(pred).len() implies key(
                #[trigger] t.filter(pred)[i],
            ) != key(s.last()) by {
                let e = t.filter(pred)[i];
                let j = choose|j: int| 0 <= j < t.len() && t[j] == e;
                assert(s[j] == e && s[s.len() - 1] == s.last());
            }
            let out = t.filter(pred).push(s.last());
            assert forall|i: int, j: int|
                #![trigger out[i], out[j]]
                0 <= i < j < out.len() implies key(out[i]) != key(out[j]) by {
                if j < out.len() - 1 {
                    assert(out[i] == t.filter(pred)[i] && out[j] == t.filter(pred)[j]);
                } else {
                    assert(out[i] == t.filter(pred)[i] && out[j] == s.last());
                }
            }
        }
    }
}

/// A filter that keeps every element changes nothing.
pub proof fn lemma_filter_all<A>(s: Seq<A>, pred: spec_fn(A) -> bool)
    requires
        forall|i: int| 0 <= i < s.len() ==> pred(#[trigger] s[i]),
    ensures
        s.filter(pred) == s,
    decreases s.len(),
{
    reveal(Seq::filter);
    if s.len() > 0 {
        let t = s.drop_last();
        assert(forall|i: int| 0 <= i < t.len() ==> t[i] == s[i]);
        lemma_filter_all(t, pred);
        assert(pred(s.last())) by {
            assert(s[s.len() - 1] == s.last());
        }
        assert(t.push(s.last()) =~= s);
    }
}

/// A filter that drops some element shrinks the sequence.
pub proof fn lemma_filter_shorter<A>(s: Seq<A>, pred: spec_fn(A) -> bool, i: int)
    requires
        0 <= i < s.len(),
        !pred(s[i]),
    ensures
        s.filter(pred).len() < s.len(),
    decreases s.len(),
{
    reveal(Seq::filter);
    let t = s.drop_last();
    t.lemma_filter_len(pred);
    if i < s.len() - 1 {
        assert(t[i] == s[i]);
        lemma_filter_shorter(t, pred, i);
    } else {
        assert(!pred(s.last())) by {
            assert(s[s.len() - 1] == s.last());
        }
    }
}

/// An element that the filter keeps still occurs in the result.
pub proof fn lemma_filter_keeps<A>(s: Seq<A>, pred: spec_fn(A) -> bool, i: int)
    requires
        0 <= i < s.len(),
        pred(s[i]),
    ensures
        s.filter(pred).contains(s[i]),
    decreases s.len(),
{
    reveal(Seq::filter);
    let t = s.drop_last();
    if i < s.len() - 1 {
        assert(t[i] == s[i]);
        lemma_filter_keeps(t, pred, i);
        let e = t[i];
        let j = choose|j: int| 0 <= j < t.filter(pred).len() && t.filter(pred)[j] == e;
        if pred(s.last()) {
            assert(s.filter(pred)[j] == e);
        }
    } else {
        assert(pred(s.last()) && s.last() == s[i]);
        let out = s.filter(pred);
        assert(out[out.len() - 1] == s[i]);
    }
}

} // verus!
