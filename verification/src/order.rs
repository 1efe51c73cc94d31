//! Ordering of response headers by name: a stable sort, as `sort_by` on the names
//! gives it.

use vstd::prelude::*;

use crate::seqs::lemma_filter_none;
use crate::text::{chars_less, less, lemma_chars_less_asymmetric, lemma_chars_less_total, lemma_chars_less_transitive};

verus! {

/// The pairs whose first text is `k`, as a predicate.
pub open spec fn named(k: Seq<char>) -> spec_fn((String, String)) -> bool {
    |p: (String, String)| p.0@ == k
}

/// Pairs in order of their first text (names that compare equal in any order).
pub open spec fn sorted_by_name(s: Seq<(String, String)>) -> bool {
    forall|i: int, j: int| 0 <= i < j < s.len() ==> !chars_less(#[trigger] s[j].0@, #[trigger] s[i].0@)
}

/// `out` holds the pairs of `inp`, and the pairs that share a name keep their order.
pub open spec fn stable_reorder(out: Seq<(String, String)>, inp: Seq<(String, String)>) -> bool {
    &&& out.len() == inp.len()
    &&& forall|k: Seq<char>| #[trigger] out.filter(named(k)) == inp.filter(named(k))
}

/// If `b` is not before `a` and `c` is not before `b`, then `c` is not before `a`.
proof fn lemma_not_less_transitive(a: Seq<char>, b: Seq<char>, c: Seq<char>)
    requires
        !chars_less(b, a),
        !chars_less(c, b),
    ensures
        !chars_less(c, a),
{
    if chars_less(c, a) {
        if b != a {
            lemma_chars_less_total(a, b);
            lemma_chars_less_transitive(c, a, b);
        }
    }
}

/// The pairs in order of their names; pairs with the same name keep their order.
pub fn sort_by_name(v: Vec<(String, String)>) -> (r: Vec<(String, String)>)
    ensures
        sorted_by_name(r@),
        stable_reorder(r@, v@),
{
    let ghost orig = v@;
    let mut rest = v;
    let mut out: Vec<(String, String)> = Vec::new();
    assert(orig.take(orig.len() as int) =~= orig);
    assert forall|k: Seq<char>| #[trigger] out@.filter(named(k)) == orig.skip(orig.len() as int).filter(named(k)) by {
        reveal(Seq::filter);
        assert(orig.skip(orig.len() as int) =~= Seq::<(String, String)>::empty());
        assert(out@ =~= Seq::<(String, String)>::empty());
    }
    while rest.len() > 0
        invariant
            rest@ == orig.take(rest@.len() as int),
            rest@.len() <= orig.len(),
            sorted_by_name(out@),
            out@.len() + rest@.len() == orig.len(),
            forall|k: Seq<char>| #[trigger] out@.filter(named(k)) == orig.skip(rest@.len() as int).filter(named(k)),
        decreases rest@.len(),
    {
        let ghost m = rest@.len() as int;
        let x = rest.pop().unwrap();
        assert(x == orig[m - 1]);
        assert(rest@ =~= orig.take(m - 1));
        let mut p: usize = 0;
        loop
            invariant
                p <= out.len(),
                forall|i: int| 0 <= i < p ==> chars_less(#[trigger] out@[i].0@, x.0@),
            ensures
                p <= out.len(),
                forall|i: int| 0 <= i < p ==> chars_less(#[trigger] out@[i].0@, x.0@),
                p == out.len() || !chars_less(out@[p as int].0@, x.0@),
            decreases out.len() - p,
        {
            if p == out.len() {
                break;
            }
            if !less(out[p].0.as_str(), x.0.as_str()) {
                break;
            }
            p = p + 1;
        }
        let ghost old_out = out@;
        out.insert(p, x);
        proof {
            let new_out = out@;
            assert(new_out =~= old_out.subrange(0, p as int) + seq![x] + old_out.subrange(p as int, old_out.len() as int));
            // sortedness
            assert forall|i: int, j: int| 0 <= i < j < new_out.len() implies !chars_less(#[trigger] new_out[j].0@, #[trigger] new_out[i].0@) by {
                if j < p {
                } else if j == p {
                    lemma_chars_less_asymmetric(old_out[i].0@, x.0@);
                } else if i < p {
                    assert(new_out[j] == old_out[j - 1]);
                } else if i == p {
                    assert(new_out[j] == old_out[j - 1]);
                    if j - 1 > p {
                        lemma_not_less_transitive(x.0@, old_out[p as int].0@, old_out[j - 1].0@);
                    }
                } else {
                    assert(new_out[j] == old_out[j - 1]);
                    assert(new_out[i] == old_out[i - 1]);
                }
            }
            // each name keeps the order of the input
            assert(orig.skip(m - 1) =~= seq![x] + orig.skip(m));
            assert forall|k: Seq<char>| #[trigger] new_out.filter(named(k)) == orig.skip(m - 1).filter(named(k)) by {
                let pre = old_out.subrange(0, p as int);
                let post = old_out.subrange(p as int, old_out.len() as int);
                assert(old_out =~= pre + post);
                Seq::filter_distributes_over_add(pre, post, named(k));
                Seq::filter_distributes_over_add(pre + seq![x], post, named(k));
                Seq::filter_distributes_over_add(pre, seq![x], named(k));
                orig.skip(m).lemma_filter_prepend(x, named(k));
                post.lemma_filter_prepend(x, named(k));
                if x.0@ == k {
                    assert forall|i: int| 0 <= i < pre.len() implies !named(k)(#[trigger] pre[i]) by {
                        lemma_chars_less_asymmetric(pre[i].0@, x.0@);
                    }
                    lemma_filter_none(pre, named(k));
                    assert(new_out.filter(named(k)) =~= seq![x] + old_out.filter(named(k)));
                } else {
                    assert(new_out.filter(named(k)) =~= old_out.filter(named(k)));
                }
            }
        }
    }
    assert(orig.skip(0) =~= orig);
    out
}


proof fn lemma_named_member(s: Seq<(String, String)>, k: Seq<char>)
    requires
        s.filter(named(k)).len() > 0,
    ensures
        exists|j: int| 0 <= j < s.len() && (#[trigger] s[j]).0@ == k,
{
    let f = s.filter(named(k));
    s.lemma_filter_pred(named(k), 0);
    assert(f.contains(f[0]));
    s.lemma_filter_contains_rev(named(k), f[0]);
}

proof fn lemma_same_names_same_order(a: Seq<(String, String)>, b: Seq<(String, String)>)
    requires
        sorted_by_name(a),
        sorted_by_name(b),
        a.len() == b.len(),
        forall|k: Seq<char>| #[trigger] a.filter(named(k)) == b.filter(named(k)),
    ensures
        a == b,
    decreases a.len(),
{
    if a.len() == 0 {
        assert(a =~= b);
    } else {
        let x = a[0];
        let y = b[0];
        let ra = a.drop_first();
        let rb = b.drop_first();
        assert(a =~= seq![x] + ra);
        assert(b =~= seq![y] + rb);
        ra.lemma_filter_prepend(x, named(x.0@));
        rb.lemma_filter_prepend(y, named(x.0@));
        ra.lemma_filter_prepend(x, named(y.0@));
        rb.lemma_filter_prepend(y, named(y.0@));
        if x.0@ != y.0@ {
            lemma_chars_less_total(x.0@, y.0@);
            if chars_less(x.0@, y.0@) {
                assert(a.filter(named(x.0@)).len() > 0);
                lemma_named_member(b, x.0@);
                let j = choose|j: int| 0 <= j < b.len() && (#[trigger] b[j]).0@ == x.0@;
                if j > 0 {
                    assert(!chars_less(b[j].0@, b[0].0@));
                }
                lemma_chars_less_asymmetric(x.0@, x.0@);
            } else {
                assert(b.filter(named(y.0@)).len() > 0);
                assert(a.filter(named(y.0@)).len() > 0);
                lemma_named_member(a, y.0@);
                let j = choose|j: int| 0 <= j < a.len() && (#[trigger] a[j]).0@ == y.0@;
                if j > 0 {
                    assert(!chars_less(a[j].0@, a[0].0@));
                }
                lemma_chars_less_asymmetric(y.0@, y.0@);
            }
        }
        assert(x.0@ == y.0@);
        assert(a.filter(named(x.0@))[0] == x);
        assert(b.filter(named(x.0@))[0] == y);
        assert forall|k: Seq<char>| #[trigger] ra.filter(named(k)) == rb.filter(named(k)) by {
            ra.lemma_filter_prepend(x, named(k));
            rb.lemma_filter_prepend(y, named(k));
            assert(a.filter(named(k)) == b.filter(named(k)));
            if k == x.0@ {
                assert(ra.filter(named(k)) =~= a.filter(named(k)).drop_first());
                assert(rb.filter(named(k)) =~= b.filter(named(k)).drop_first());
            } else {
                assert(ra.filter(named(k)) =~= a.filter(named(k)));
                assert(rb.filter(named(k)) =~= b.filter(named(k)));
            }
        }
        assert(sorted_by_name(ra)) by {
            assert forall|i: int, j: int| 0 <= i < j < ra.len() implies !chars_less(#[trigger] ra[j].0@, #[trigger] ra[i].0@) by {
                assert(ra[i] == a[i + 1] && ra[j] == a[j + 1]);
            }
        }
        assert(sorted_by_name(rb)) by {
            assert forall|i: int, j: int| 0 <= i < j < rb.len() implies !chars_less(#[trigger] rb[j].0@, #[trigger] rb[i].0@) by {
                assert(rb[i] == b[i + 1] && rb[j] == b[j + 1]);
            }
        }
        lemma_same_names_same_order(ra, rb);
    }
}

/// The order of the headers is determined: two arrangements of the same headers that
/// are both ordered by name, and both keep the order of headers that share a name, are
/// the same arrangement.
pub proof fn law_name_order_is_determined(
    a: Seq<(String, String)>,
    b: Seq<(String, String)>,
    headers: Seq<(String, String)>,
)
    requires
        sorted_by_name(a),
        stable_reorder(a, headers),
        sorted_by_name(b),
        stable_reorder(b, headers),
    ensures
        a == b,
{
    assert forall|k: Seq<char>| #[trigger] a.filter(named(k)) == b.filter(named(k)) by {
        assert(a.filter(named(k)) == headers.filter(named(k)));
        assert(b.filter(named(k)) == headers.filter(named(k)));
    }
    lemma_same_names_same_order(a, b);
}

} // verus!
