//! Facts about filtering sequences that the proofs of this crate share.

use vstd::prelude::*;

verus! {

/// Filtering a sequence with one more item at its end.
pub proof fn lemma_filter_push<A>(s: Seq<A>, x: A, p: spec_fn(A) -> bool)
    ensures
        s.push(x).filter(p) == (if p(x) {
            s.filter(p).push(x)
        } else {
            s.filter(p)
        }),
{
    reveal(Seq::filter);
    assert(s.push(x).drop_last() =~= s);
}

/// Filtering out every item leaves nothing.
pub proof fn lemma_filter_none<A>(s: Seq<A>, p: spec_fn(A) -> bool)
    requires
        forall|i: int| 0 <= i < s.len() ==> !p(#[trigger] s[i]),
    ensures
        s.filter(p) == Seq::<A>::empty(),
    decreases s.len(),
{
    reveal(Seq::filter);
    if s.len() > 0 {
        lemma_filter_none(s.drop_last(), p);
    }
}

/// Filtering that keeps every item changes nothing.
pub proof fn lemma_filter_all<A>(s: Seq<A>, p: spec_fn(A) -> bool)
    requires
        forall|i: int| 0 <= i < s.len() ==> p(#[trigger] s[i]),
    ensures
        s.filter(p) == s,
    decreases s.len(),
{
    reveal(Seq::filter);
    if s.len() > 0 {
        lemma_filter_all(s.drop_last(), p);
        assert(s.drop_last().push(s.last()) =~= s);
    }
}

/// An item that filtering keeps passes the test and comes from the sequence.
pub proof fn lemma_filter_item<A>(s: Seq<A>, p: spec_fn(A) -> bool, i: int)
    requires
        0 <= i < s.filter(p).len(),
    ensures
        p(s.filter(p)[i]),
        s.contains(s.filter(p)[i]),
{
    s.lemma_filter_pred(p, i);
    assert(s.filter(p).contains(s.filter(p)[i]));
    s.lemma_filter_contains_rev(p, s.filter(p)[i]);
}


/// How many items of `s` pass `p`.
pub open spec fn count_where<A>(s: Seq<A>, p: spec_fn(A) -> bool) -> nat
    decreases s.len(),
{
    if s.len() == 0 {
        0
    } else {
        count_where(s.drop_last(), p) + if p(s.last()) {
            1nat
        } else {
            0nat
        }
    }
}

/// Filtering keeps as many items as pass the test.
pub proof fn lemma_filter_len_count<A>(s: Seq<A>, p: spec_fn(A) -> bool)
    ensures
        s.filter(p).len() == count_where(s, p),
    decreases s.len(),
{
    reveal(Seq::filter);
    if s.len() > 0 {
        lemma_filter_len_count(s.drop_last(), p);
    }
}

/// An item that passes the test is kept, at the position given by how many items
/// before it pass.
pub proof fn lemma_filter_position<A>(s: Seq<A>, p: spec_fn(A) -> bool, j: int)
    requires
        0 <= j < s.len(),
        p(s[j]),
    ensures
        count_where(s.take(j), p) < s.filter(p).len(),
        s.filter(p)[count_where(s.take(j), p) as int] == s[j],
    decreases s.len(),
{
    reveal(Seq::filter);
    let d = s.drop_last();
    lemma_filter_len_count(d, p);
    if j == s.len() - 1 {
        assert(s.take(j) =~= d);
    } else {
        assert(s.take(j) =~= d.take(j));
        assert(d[j] == s[j]);
        lemma_filter_position(d, p, j);
    }
}
} // verus!
