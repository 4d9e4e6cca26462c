//! Facts about `Seq::filter` that the cascade deletions rely on.

use vstd::prelude::*;

verus! {

/// Every element of a filtered sequence occurs in the original.
pub proof fn lemma_filter_in_orig<A>(s: Seq<A>, p: spec_fn(A) -> bool)
    ensures
        forall|i: int| 0 <= i < s.filter(p).len() ==> s.contains(#[trigger] s.filter(p)[i]),
    decreases s.len(),
{
    reveal(Seq::filter);
    if s.len() != 0 {
        let d = s.drop_last();
        lemma_filter_in_orig(d, p);
        assert forall|i: int| 0 <= i < s.filter(p).len() implies s.contains(
            #[trigger] s.filter(p)[i],
        ) by {
            let x = s.filter(p)[i];
            if p(s.last()) && i == s.filter(p).len() - 1 {
                assert(x == s.last());
                assert(s[s.len() - 1] == x);
            } else {
                assert(d.filter(p)[i] == x);
                assert(d.contains(x));
                let j = choose|j: int| 0 <= j < d.len() && d[j] == x;
                assert(s[j] == x);
            }
        }
    }
}

/// How the filter of a prefix grows by one element: the step fact a
/// rebuild loop maintains.
pub proof fn lemma_filter_step<A>(s: Seq<A>, p: spec_fn(A) -> bool, i: int)
    requires
        0 <= i < s.len(),
    ensures
        s.subrange(0, i + 1).filter(p) == if p(s[i]) {
            s.subrange(0, i).filter(p).push(s[i])
        } else {
            s.subrange(0, i).filter(p)
        },
{
    reveal(Seq::filter);
    let t = s.subrange(0, i + 1);
    assert(t.drop_last() =~= s.subrange(0, i));
    assert(t.last() == s[i]);
}

/// A filter that keeps everything changes nothing.
pub proof fn lemma_filter_all<A>(s: Seq<A>, p: spec_fn(A) -> bool)
    requires
        forall|i: int| 0 <= i < s.len() ==> p(s[i]),
    ensures
        s.filter(p) == s,
    decreases s.len(),
{
    reveal(Seq::filter);
    if s.len() != 0 {
        let d = s.drop_last();
        assert forall|i: int| 0 <= i < d.len() implies p(d[i]) by {
            assert(d[i] == s[i]);
        }
        lemma_filter_all(d, p);
        assert(s.filter(p) =~= s);
    }
}

/// Filtering keeps pairwise-distinct keys pairwise distinct.
pub proof fn lemma_filter_distinct_by<A, K>(s: Seq<A>, p: spec_fn(A) -> bool, key: spec_fn(A) -> K)
    requires
        forall|i: int, j: int| 0 <= i < j < s.len() ==> key(s[i]) != key(s[j]),
    ensures
        forall|i: int, j: int|
            0 <= i < j < s.filter(p).len() ==> key(#[trigger] s.filter(p)[i]) != key(
                #[trigger] s.filter(p)[j],
            ),
    decreases s.len(),
{
    reveal(Seq::filter);
    if s.len() != 0 {
        let d = s.drop_last();
        assert forall|i: int, j: int| 0 <= i < j < d.len() implies key(d[i]) != key(d[j]) by {
            assert(d[i] == s[i]);
            assert(d[j] == s[j]);
        }
        lemma_filter_distinct_by(d, p, key);
        lemma_filter_in_orig(d, p);
        assert forall|i: int, j: int| 0 <= i < j < s.filter(p).len() implies key(s.filter(p)[i])
            != key(s.filter(p)[j]) by {
            let f = s.filter(p);
            if p(s.last()) && j == f.len() - 1 {
                assert(f[j] == s.last());
                assert(f[i] == d.filter(p)[i]);
                assert(d.contains(f[i]));
                let m = choose|m: int| 0 <= m < d.len() && d[m] == f[i];
                assert(s[m] == f[i]);
                assert(s[s.len() - 1] == f[j]);
                assert(key(s[m]) != key(s[s.len() - 1]));
            } else {
                assert(f[i] == d.filter(p)[i]);
                assert(f[j] == d.filter(p)[j]);
            }
        }
    }
}

} // verus!
