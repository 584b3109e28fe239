use vstd::prelude::*;
use vstd::string::*;

verus! {

/// Lexicographic order on character sequences, by code point: the empty
/// sequence first, otherwise by the first differing character.
pub open spec fn lex_le(a: Seq<char>, b: Seq<char>) -> bool
    decreases a.len(),
{
    if a.len() == 0 {
        true
    } else if b.len() == 0 {
        false
    } else if (a[0] as u32) == (b[0] as u32) {
        lex_le(a.skip(1), b.skip(1))
    } else {
        (a[0] as u32) < (b[0] as u32)
    }
}

/// One step of the comparison: with the characters at `i` equal, the
/// order of the remainders from `i` is the order of the remainders from
/// `i + 1`.
proof fn lemma_lex_le_step(a: Seq<char>, b: Seq<char>, i: int)
    requires
        0 <= i < a.len(),
        i < b.len(),
        (a[i] as u32) == (b[i] as u32),
    ensures
        lex_le(a.skip(i), b.skip(i)) == lex_le(a.skip(i + 1), b.skip(i + 1)),
{
    assert(a.skip(i).skip(1) =~= a.skip(i + 1));
    assert(b.skip(i).skip(1) =~= b.skip(i + 1));
    assert(a.skip(i)[0] == a[i] && b.skip(i)[0] == b[i]);
}

/// Character-for-character lexicographic comparison, verified against the
/// order on the views.
pub fn str_le(a: &str, b: &str) -> (r: bool)
    ensures
        r == lex_le(a@, b@),
{
    let m = a.unicode_len();
    let n = b.unicode_len();
    let mut i: usize = 0;
    proof {
        assert(a@.skip(0) =~= a@);
        assert(b@.skip(0) =~= b@);
    }
    while i < m && i < n
        invariant
            i <= m,
            i <= n,
            m == a@.len(),
            n == b@.len(),
            lex_le(a@, b@) == lex_le(a@.skip(i as int), b@.skip(i as int)),
        decreases m - i,
    {
        let ca = a.get_char(i) as u32;
        let cb = b.get_char(i) as u32;
        if ca != cb {
            proof {
                assert(a@.skip(i as int)[0] == a@[i as int]);
                assert(b@.skip(i as int)[0] == b@[i as int]);
            }
            return ca < cb;
        }
        proof {
            lemma_lex_le_step(a@, b@, i as int);
        }
        i += 1;
    }
    proof {
        if i >= m {
            assert(a@.skip(i as int).len() == 0);
        } else {
            assert(b@.skip(i as int).len() == 0);
            assert(a@.skip(i as int).len() > 0);
        }
    }
    i >= m
}

/// The element `x` placed into `s` after every element that precedes or
/// equals it: the insertion step of a stable sort.
pub open spec fn spec_insert_by<A>(x: A, s: Seq<A>, leq: spec_fn(A, A) -> bool) -> Seq<A>
    decreases s.len(),
{
    if s.len() == 0 {
        seq![x]
    } else if leq(s[0], x) {
        seq![s[0]] + spec_insert_by(x, s.skip(1), leq)
    } else {
        seq![x] + s
    }
}

/// The stable sort of `s` under `leq`: each element in turn inserted
/// after its equals, so elements with equal keys keep their order.
pub open spec fn spec_sort_by<A>(s: Seq<A>, leq: spec_fn(A, A) -> bool) -> Seq<A>
    decreases s.len(),
{
    if s.len() == 0 {
        Seq::empty()
    } else {
        spec_insert_by(s.last(), spec_sort_by(s.drop_last(), leq), leq)
    }
}

/// Where the insertion lands: with everything before `j` preceding or
/// equalling `x` and the element at `j` (if any) not, the insertion
/// splits `s` at `j`.
pub proof fn lemma_insert_by_split<A>(x: A, s: Seq<A>, leq: spec_fn(A, A) -> bool, j: int)
    requires
        0 <= j <= s.len(),
        forall|k: int| 0 <= k < j ==> leq(#[trigger] s[k], x),
        j < s.len() ==> !leq(s[j], x),
    ensures
        spec_insert_by(x, s, leq) == s.subrange(0, j) + seq![x] + s.subrange(j, s.len() as int),
    decreases s.len(),
{
    if s.len() == 0 {
        assert(spec_insert_by(x, s, leq) =~= s.subrange(0, j) + seq![x] + s.subrange(
            j,
            s.len() as int,
        ));
    } else if j == 0 {
        assert(!leq(s[0], x));
        assert(seq![x] + s =~= s.subrange(0, 0) + seq![x] + s.subrange(0, s.len() as int));
    } else {
        assert(leq(s[0], x));
        let t = s.skip(1);
        assert(forall|k: int| 0 <= k < j - 1 ==> #[trigger] t[k] == s[k + 1]);
        lemma_insert_by_split(x, t, leq, j - 1);
        assert(seq![s[0]] + (t.subrange(0, j - 1) + seq![x] + t.subrange(j - 1, t.len() as int))
            =~= s.subrange(0, j) + seq![x] + s.subrange(j, s.len() as int));
    }
}

/// Sorting one more element inserts it into the sorted remainder.
pub proof fn lemma_sort_by_push<A>(s: Seq<A>, x: A, leq: spec_fn(A, A) -> bool)
    ensures
        spec_sort_by(s.push(x), leq) == spec_insert_by(x, spec_sort_by(s, leq), leq),
{
    assert(s.push(x).drop_last() =~= s);
    assert(s.push(x).last() == x);
}

/// An insertion holds a key exactly when the sequence already did, or the
/// inserted element carries it.
pub proof fn lemma_insert_by_keys<A, K>(
    x: A,
    s: Seq<A>,
    leq: spec_fn(A, A) -> bool,
    key: spec_fn(A) -> K,
    k: K,
)
    ensures
        crate::seqs::exists_key(spec_insert_by(x, s, leq), key, k) == (crate::seqs::exists_key(
            s,
            key,
            k,
        ) || key(x) == k),
    decreases s.len(),
{
    let out = spec_insert_by(x, s, leq);
    if s.len() == 0 {
        assert(out[0] == x);
        if crate::seqs::exists_key(out, key, k) {
            let i = choose|i: int| 0 <= i < out.len() && key(#[trigger] out[i]) == k;
            assert(out[i] == x);
        }
    } else if leq(s[0], x) {
        let t = s.skip(1);
        lemma_insert_by_keys(x, t, leq, key, k);
        let rest = spec_insert_by(x, t, leq);
        assert(out =~= seq![s[0]] + rest);
        if crate::seqs::exists_key(out, key, k) {
            let i = choose|i: int| 0 <= i < out.len() && key(#[trigger] out[i]) == k;
            if i == 0 {
                assert(key(s[0]) == k);
            } else {
                assert(rest[i - 1] == out[i]);
                assert(crate::seqs::exists_key(rest, key, k));
            }
        }
        if crate::seqs::exists_key(s, key, k) {
            let i = choose|i: int| 0 <= i < s.len() && key(#[trigger] s[i]) == k;
            if i == 0 {
                assert(key(out[0]) == k);
            } else {
                assert(t[i - 1] == s[i]);
                assert(crate::seqs::exists_key(t, key, k));
                let j = choose|j: int| 0 <= j < rest.len() && key(#[trigger] rest[j]) == k;
                assert(key(out[j + 1]) == k);
            }
        }
        if key(x) == k {
            let j = choose|j: int| 0 <= j < rest.len() && key(#[trigger] rest[j]) == k;
            assert(key(out[j + 1]) == k);
        }
    } else {
        assert(out =~= seq![x] + s);
        if crate::seqs::exists_key(out, key, k) {
            let i = choose|i: int| 0 <= i < out.len() && key(#[trigger] out[i]) == k;
            if i > 0 {
                assert(key(s[i - 1]) == k);
            }
        }
        if crate::seqs::exists_key(s, key, k) {
            let i = choose|i: int| 0 <= i < s.len() && key(#[trigger] s[i]) == k;
            assert(key(out[i + 1]) == k);
        }
        if key(x) == k {
            assert(key(out[0]) == k);
        }
    }
}

/// Inserting an element whose key is fresh keeps keys distinct.
pub proof fn lemma_insert_by_distinct<A, K>(
    x: A,
    s: Seq<A>,
    leq: spec_fn(A, A) -> bool,
    key: spec_fn(A) -> K,
)
    requires
        crate::seqs::distinct_by(s, key),
        !crate::seqs::exists_key(s, key, key(x)),
    ensures
        crate::seqs::distinct_by(spec_insert_by(x, s, leq), key),
    decreases s.len(),
{
    let out = spec_insert_by(x, s, leq);
    if s.len() == 0 {
    } else if leq(s[0], x) {
        let t = s.skip(1);
        assert(forall|k: int| 0 <= k < t.len() ==> #[trigger] t[k] == s[k + 1]);
        assert(crate::seqs::distinct_by(t, key));
        assert(!crate::seqs::exists_key(t, key, key(x))) by {
            if crate::seqs::exists_key(t, key, key(x)) {
                let i = choose|i: int| 0 <= i < t.len() && key(#[trigger] t[i]) == key(x);
                assert(key(s[i + 1]) == key(x));
            }
        }
        lemma_insert_by_distinct(x, t, leq, key);
        let rest = spec_insert_by(x, t, leq);
        assert(out =~= seq![s[0]] + rest);
        assert forall|i: int, j: int|
            #![trigger out[i], out[j]]
            0 <= i < j < out.len() implies key(out[i]) != key(out[j]) by {
            if i == 0 {
                assert(out[j] == rest[j - 1]);
                lemma_insert_by_keys(x, t, leq, key, key(rest[j - 1]));
                if key(out[0]) == key(rest[j - 1]) {
                    if key(rest[j - 1]) == key(x) {
                        assert(crate::seqs::exists_key(s, key, key(x))) by {
                            assert(key(s[0]) == key(x));
                        }
                    } else {
                        let m = choose|m: int|
                            0 <= m < t.len() && key(#[trigger] t[m]) == key(rest[j - 1]);
                        assert(s[m + 1] == t[m] && key(s[0]) == key(s[m + 1]));
                    }
                }
            } else {
                assert(out[i] == rest[i - 1] && out[j] == rest[j - 1]);
            }
        }
    } else {
        assert(out =~= seq![x] + s);
        assert forall|i: int, j: int|
            #![trigger out[i], out[j]]
            0 <= i < j < out.len() implies key(out[i]) != key(out[j]) by {
            if i == 0 {
                assert(out[j] == s[j - 1]);
                if key(x) == key(s[j - 1]) {
                    assert(crate::seqs::exists_key(s, key, key(x))) by {
                        assert(key(s[j - 1]) == key(x));
                    }
                }
            } else {
                assert(out[i] == s[i - 1] && out[j] == s[j - 1]);
            }
        }
    }
}

/// A sort holds exactly the keys the sequence held.
pub proof fn lemma_sort_by_keys<A, K>(
    s: Seq<A>,
    leq: spec_fn(A, A) -> bool,
    key: spec_fn(A) -> K,
    k: K,
)
    ensures
        crate::seqs::exists_key(spec_sort_by(s, leq), key, k) == crate::seqs::exists_key(
            s,
            key,
            k,
        ),
    decreases s.len(),
{
    if s.len() > 0 {
        let t = s.drop_last();
        lemma_sort_by_keys(t, leq, key, k);
        lemma_insert_by_keys(s.last(), spec_sort_by(t, leq), leq, key, k);
        assert(crate::seqs::exists_key(s, key, k) == (crate::seqs::exists_key(t, key, k) || key(
            s.last(),
        ) == k)) by {
            if crate::seqs::exists_key(s, key, k) {
                let i = choose|i: int| 0 <= i < s.len() && key(#[trigger] s[i]) == k;
                if i < s.len() - 1 {
                    assert(key(t[i]) == k);
                } else {
                    assert(s[i] == s.last());
                }
            }
            if crate::seqs::exists_key(t, key, k) {
                let i = choose|i: int| 0 <= i < t.len() && key(#[trigger] t[i]) == k;
                assert(key(s[i]) == k);
            }
            if key(s.last()) == k {
                assert(key(s[s.len() - 1]) == k);
            }
        }
    }
}

/// Sorting a sequence with distinct keys yields distinct keys.
pub proof fn lemma_sort_by_distinct<A, K>(
    s: Seq<A>,
    leq: spec_fn(A, A) -> bool,
    key: spec_fn(A) -> K,
)
    requires
        crate::seqs::distinct_by(s, key),
    ensures
        crate::seqs::distinct_by(spec_sort_by(s, leq), key),
    decreases s.len(),
{
    if s.len() > 0 {
        let t = s.drop_last();
        assert(forall|k: int| 0 <= k < t.len() ==> #[trigger] t[k] == s[k]);
        lemma_sort_by_distinct(t, leq, key);
        assert(!crate::seqs::exists_key(t, key, key(s.last()))) by {
            if crate::seqs::exists_key(t, key, key(s.last())) {
                let i = choose|i: int| 0 <= i < t.len() && key(#[trigger] t[i]) == key(s.last());
                assert(key(s[i]) == key(s[s.len() - 1]));
            }
        }
        lemma_sort_by_keys(t, leq, key, key(s.last()));
        lemma_insert_by_distinct(s.last(), spec_sort_by(t, leq), leq, key);
    }
}

/// The order is total: of any two sequences, one precedes or equals the
/// other.
pub proof fn lemma_lex_le_total(a: Seq<char>, b: Seq<char>)
    ensures
        lex_le(a, b) || lex_le(b, a),
    decreases a.len(),
{
    if a.len() > 0 && b.len() > 0 && (a[0] as u32) == (b[0] as u32) {
        lemma_lex_le_total(a.skip(1), b.skip(1));
    }
}

/// The order is transitive.
pub proof fn lemma_lex_le_trans(a: Seq<char>, b: Seq<char>, c: Seq<char>)
    requires
        lex_le(a, b),
        lex_le(b, c),
    ensures
        lex_le(a, c),
    decreases a.len(),
{
    if a.len() > 0 && b.len() > 0 && c.len() > 0 && (a[0] as u32) == (b[0] as u32) && (b[0] as u32)
        == (c[0] as u32) {
        lemma_lex_le_trans(a.skip(1), b.skip(1), c.skip(1));
    }
}

/// Every element of an insertion is the inserted one or one of the run's
/// own, and exactly one element is added.
pub proof fn lemma_insert_by_elements<A>(x: A, s: Seq<A>, leq: spec_fn(A, A) -> bool)
    ensures
        spec_insert_by(x, s, leq).len() == s.len() + 1,
        forall|i: int|
            0 <= i < spec_insert_by(x, s, leq).len() ==> #[trigger] spec_insert_by(x, s, leq)[i]
                == x || s.contains(spec_insert_by(x, s, leq)[i]),
    decreases s.len(),
{
    let out = spec_insert_by(x, s, leq);
    if s.len() == 0 {
    } else if leq(s[0], x) {
        let t = s.skip(1);
        lemma_insert_by_elements(x, t, leq);
        let rest = spec_insert_by(x, t, leq);
        assert(out =~= seq![s[0]] + rest);
        assert forall|i: int| 0 <= i < out.len() implies #[trigger] out[i] == x || s.contains(
            out[i],
        ) by {
            if i == 0 {
                assert(s[0] == out[0]);
            } else {
                assert(out[i] == rest[i - 1]);
                if rest[i - 1] != x {
                    let m = choose|m: int| 0 <= m < t.len() && t[m] == rest[i - 1];
                    assert(s[m + 1] == t[m]);
                }
            }
        }
    } else {
        assert(out =~= seq![x] + s);
        assert forall|i: int| 0 <= i < out.len() implies #[trigger] out[i] == x || s.contains(
            out[i],
        ) by {
            if i > 0 {
                assert(out[i] == s[i - 1]);
            }
        }
    }
}

/// Inserting into a run that is pairwise ordered under a total,
/// transitive comparison keeps it pairwise ordered.
pub proof fn lemma_insert_by_sorted<A>(x: A, s: Seq<A>, leq: spec_fn(A, A) -> bool)
    requires
        vstd::relations::sorted_by(s, leq),
        vstd::relations::strongly_connected(leq),
        vstd::relations::transitive(leq),
    ensures
        vstd::relations::sorted_by(spec_insert_by(x, s, leq), leq),
    decreases s.len(),
{
    let out = spec_insert_by(x, s, leq);
    if s.len() == 0 {
    } else if leq(s[0], x) {
        let t = s.skip(1);
        assert(forall|k: int| 0 <= k < t.len() ==> #[trigger] t[k] == s[k + 1]);
        lemma_insert_by_sorted(x, t, leq);
        lemma_insert_by_elements(x, t, leq);
        let rest = spec_insert_by(x, t, leq);
        assert(out =~= seq![s[0]] + rest);
        assert forall|i: int, j: int| 0 <= i < j < out.len() implies #[trigger] leq(
            out[i],
            out[j],
        ) by {
            if i == 0 {
                assert(out[j] == rest[j - 1]);
                if rest[j - 1] == x {
                } else {
                    let m = choose|m: int| 0 <= m < t.len() && t[m] == rest[j - 1];
                    assert(leq(s[0], s[m + 1]));
                }
            } else {
                assert(out[i] == rest[i - 1] && out[j] == rest[j - 1]);
            }
        }
    } else {
        assert(out =~= seq![x] + s);
        assert(leq(x, s[0]));
        assert forall|i: int, j: int| 0 <= i < j < out.len() implies #[trigger] leq(
            out[i],
            out[j],
        ) by {
            if i == 0 {
                assert(out[j] == s[j - 1]);
                if j > 1 {
                    assert(leq(s[0], s[j - 1]));
                }
            } else {
                assert(out[i] == s[i - 1] && out[j] == s[j - 1]);
            }
        }
    }
}

/// The stable sort is pairwise ordered under a total, transitive
/// comparison.
pub proof fn lemma_sort_by_sorted<A>(s: Seq<A>, leq: spec_fn(A, A) -> bool)
    requires
        vstd::relations::strongly_connected(leq),
        vstd::relations::transitive(leq),
    ensures
        vstd::relations::sorted_by(spec_sort_by(s, leq), leq),
    decreases s.len(),
{
    if s.len() > 0 {
        lemma_sort_by_sorted(s.drop_last(), leq);
        lemma_insert_by_sorted(s.last(), spec_sort_by(s.drop_last(), leq), leq);
    }
}

/// An insertion adds exactly the inserted element to the run's contents.
pub proof fn lemma_insert_by_multiset<A>(x: A, s: Seq<A>, leq: spec_fn(A, A) -> bool)
    ensures
        spec_insert_by(x, s, leq).to_multiset() == s.to_multiset().insert(x),
    decreases s.len(),
{
    broadcast use vstd::seq_lib::group_to_multiset_ensures;

    let out = spec_insert_by(x, s, leq);
    if s.len() == 0 {
        assert(seq![x] =~= Seq::<A>::empty().push(x));
        assert(out.to_multiset() =~= s.to_multiset().insert(x));
    } else if leq(s[0], x) {
        let t = s.skip(1);
        lemma_insert_by_multiset(x, t, leq);
        let rest = spec_insert_by(x, t, leq);
        assert(out =~= seq![s[0]] + rest);
        assert(s =~= seq![s[0]] + t);
        vstd::seq_lib::lemma_multiset_commutative(seq![s[0]], rest);
        vstd::seq_lib::lemma_multiset_commutative(seq![s[0]], t);
        assert(out.to_multiset() =~= s.to_multiset().insert(x));
    } else {
        assert(out =~= seq![x] + s);
        vstd::seq_lib::lemma_multiset_commutative(seq![x], s);
        assert(seq![x] =~= Seq::<A>::empty().push(x));
        assert(out.to_multiset() =~= s.to_multiset().insert(x));
    }
}

/// The stable sort is a permutation: it holds exactly the rows of the
/// table, each as often as the table does.
pub proof fn lemma_sort_by_multiset<A>(s: Seq<A>, leq: spec_fn(A, A) -> bool)
    ensures
        spec_sort_by(s, leq).to_multiset() == s.to_multiset(),
    decreases s.len(),
{
    broadcast use vstd::seq_lib::group_to_multiset_ensures;

    if s.len() > 0 {
        let t = s.drop_last();
        lemma_sort_by_multiset(t, leq);
        lemma_insert_by_multiset(s.last(), spec_sort_by(t, leq), leq);
        assert(s =~= t.push(s.last()));
        assert(spec_sort_by(s, leq).to_multiset() =~= s.to_multiset());
    }
}

} // verus!
