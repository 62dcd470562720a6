//! Facts about `Seq::filter` that the laws of the library rest on.
use vstd::prelude::*;

verus! {

/// Filtering two sequences of equal length, whose elements at each position
/// agree on the predicates and are related where kept, gives sequences of
/// equal length whose elements are related position by position.
pub proof fn lemma_filter_related<A>(
    s1: Seq<A>,
    s2: Seq<A>,
    p1: spec_fn(A) -> bool,
    p2: spec_fn(A) -> bool,
    rel: spec_fn(A, A) -> bool,
)
    requires
        s1.len() == s2.len(),
        forall|i: int|
            0 <= i < s1.len() ==> p1(#[trigger] s1[i]) == p2(s2[i]) && (p1(s1[i]) ==> rel(
                s1[i],
                s2[i],
            )),
    ensures
        s1.filter(p1).len() == s2.filter(p2).len(),
        forall|k: int|
            0 <= k < s1.filter(p1).len() ==> rel(#[trigger] s1.filter(p1)[k], s2.filter(p2)[k]),
    decreases s1.len(),
{
    reveal(Seq::filter);
    if s1.len() > 0 {
        let t1 = s1.drop_last();
        let t2 = s2.drop_last();
        assert forall|i: int| 0 <= i < t1.len() implies p1(#[trigger] t1[i]) == p2(t2[i]) && (p1(
            t1[i],
        ) ==> rel(t1[i], t2[i])) by {
            assert(t1[i] == s1[i] && t2[i] == s2[i]);
        }
        lemma_filter_related(t1, t2, p1, p2, rel);
        assert(p1(s1[s1.len() - 1]) == p2(s2[s2.len() - 1]));
    }
}

/// Filtering keeps a sequence whose elements all satisfy the predicate.
pub proof fn lemma_filter_all<A>(s: Seq<A>, p: spec_fn(A) -> bool)
    requires
        forall|i: int| 0 <= i < s.len() ==> p(#[trigger] s[i]),
    ensures
        s.filter(p) == s,
    decreases s.len(),
{
    reveal(Seq::filter);
    if s.len() > 0 {
        let t = s.drop_last();
        assert forall|i: int| 0 <= i < t.len() implies p(#[trigger] t[i]) by {
            assert(t[i] == s[i]);
        }
        lemma_filter_all(t, p);
        assert(s.last() == s[s.len() - 1]);
        assert(t.push(s.last()) =~= s);
    }
}

} // verus!
