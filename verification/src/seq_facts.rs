//! General facts about `Seq::filter` that several stages of the
//! pipeline share.

use vstd::prelude::*;

verus! {

/// Filtering after a push keeps the pushed element exactly when the
/// predicate holds of it.
pub proof fn lemma_filter_push<A>(s: Seq<A>, p: spec_fn(A) -> bool, x: A)
    ensures
        s.push(x).filter(p) == if p(x) {
            s.filter(p).push(x)
        } else {
            s.filter(p)
        },
{
    reveal(Seq::filter);
    assert(s.push(x).drop_last() =~= s);
    assert(s.push(x).last() == x);
}

/// Filtering a sequence whose every element satisfies the predicate
/// changes nothing.
pub proof fn lemma_filter_all_kept<A>(s: Seq<A>, p: spec_fn(A) -> bool)
    requires
        forall|i: int| 0 <= i < s.len() ==> p(#[trigger] s[i]),
    ensures
        s.filter(p) == s,
    decreases s.len(),
{
    reveal(Seq::filter);
    if s.len() == 0 {
        assert(s.filter(p) =~= s);
    } else {
        let s0 = s.drop_last();
        assert(forall|i: int| 0 <= i < s0.len() ==> p(#[trigger] s0[i]));
        lemma_filter_all_kept(s0, p);
        assert(p(s.last()));
        assert(s0.push(s.last()) =~= s);
    }
}

/// A filter pass is idempotent.
pub proof fn lemma_filter_idempotent<A>(s: Seq<A>, p: spec_fn(A) -> bool)
    ensures
        s.filter(p).filter(p) == s.filter(p),
{
    broadcast use vstd::seq_lib::group_filter_ensures;

    lemma_filter_all_kept(s.filter(p), p);
}

/// A first filter pass that discards only elements the second pass
/// would discard anyway does not change the second pass's result.
pub proof fn lemma_filter_absorb<A>(s: Seq<A>, p: spec_fn(A) -> bool, q: spec_fn(A) -> bool)
    requires
        forall|a: A| #[trigger] q(a) ==> p(a),
    ensures
        s.filter(p).filter(q) == s.filter(q),
    decreases s.len(),
{
    reveal(Seq::filter);
    if s.len() == 0 {
        assert(s.filter(p) =~= s);
    } else {
        let s0 = s.drop_last();
        let x = s.last();
        lemma_filter_absorb(s0, p, q);
        assert(s0.push(x) =~= s);
        lemma_filter_push(s0, p, x);
        lemma_filter_push(s0, q, x);
        if p(x) {
            lemma_filter_push(s0.filter(p), q, x);
        }
    }
}

/// Filtering keeps a sequence with pairwise-distinct keys
/// pairwise-distinct in those keys.
pub proof fn lemma_filter_keys_distinct<A, K>(s: Seq<A>, p: spec_fn(A) -> bool, key: spec_fn(A) -> K)
    requires
        forall|i: int, j: int| 0 <= i < j < s.len() ==> key(s[i]) != key(s[j]),
    ensures
        forall|i: int, j: int|
            0 <= i < j < s.filter(p).len() ==> key(s.filter(p)[i]) != key(s.filter(p)[j]),
    decreases s.len(),
{
    broadcast use vstd::seq_lib::group_filter_ensures;

    if s.len() > 0 {
        let s0 = s.drop_last();
        let x = s.last();
        lemma_filter_keys_distinct(s0, p, key);
        assert(s0.push(x) =~= s);
        lemma_filter_push(s0, p, x);
        if p(x) {
            let f = s0.filter(p);
            assert forall|i: int, j: int|
                0 <= i < j < f.push(x).len() implies key(f.push(x)[i]) != key(f.push(x)[j]) by {
                if j < f.len() {
                } else {
                    assert(f.contains(f[i]));
                    s0.lemma_filter_contains_rev(p, f[i]);
                    let k = choose|k: int| 0 <= k < s0.len() && s0[k] == f[i];
                    assert(s[k] == s0[k]);
                    assert(s[s.len() - 1] == x);
                }
            }
        }
    }
}

} // verus!
