//! Counting the occurrences of a value in a sequence, and how filtering and
//! mapping change those counts.
use vstd::prelude::*;

verus! {

/// How many times `v` occurs in `s`.
pub open spec fn occurrences<A>(s: Seq<A>, v: A) -> nat {
    s.filter(|y: A| y == v).len()
}

/// Filtering by two predicates that agree on every element gives the same
/// sequence.
pub proof fn lemma_filter_agreeing<A>(s: Seq<A>, p: spec_fn(A) -> bool, q: spec_fn(A) -> bool)
    requires
        forall|i: int| 0 <= i < s.len() ==> p(#[trigger] s[i]) == q(s[i]),
    ensures
        s.filter(p) == s.filter(q),
    decreases s.len(),
{
    reveal(Seq::filter);
    if s.len() > 0 {
        lemma_filter_agreeing(s.drop_last(), p, q);
        assert(p(s[s.len() - 1]) == q(s[s.len() - 1]));
    }
}

/// Filtering twice is filtering once by both predicates.
pub proof fn lemma_filter_twice<A>(s: Seq<A>, p: spec_fn(A) -> bool, q: spec_fn(A) -> bool)
    ensures
        s.filter(p).filter(q) == s.filter(|x: A| p(x) && q(x)),
    decreases s.len(),
{
    reveal(Seq::filter);
    if s.len() > 0 {
        lemma_filter_twice(s.drop_last(), p, q);
        let sub = s.drop_last().filter(p);
        if p(s.last()) {
            assert(sub.push(s.last()).drop_last() =~= sub);
        }
    }
}

/// Filtering by a predicate that no element meets leaves nothing.
pub proof fn lemma_filter_none<A>(s: Seq<A>, p: spec_fn(A) -> bool)
    requires
        forall|i: int| 0 <= i < s.len() ==> !p(#[trigger] s[i]),
    ensures
        s.filter(p).len() == 0,
    decreases s.len(),
{
    reveal(Seq::filter);
    if s.len() > 0 {
        lemma_filter_none(s.drop_last(), p);
        assert(!p(s[s.len() - 1]));
    }
}

/// A filter and its complement share out the elements.
pub proof fn lemma_filter_complement_len<A>(s: Seq<A>, p: spec_fn(A) -> bool)
    ensures
        s.filter(p).len() + s.filter(|x: A| !p(x)).len() == s.len(),
    decreases s.len(),
{
    reveal(Seq::filter);
    if s.len() > 0 {
        lemma_filter_complement_len(s.drop_last(), p);
    }
}

/// Filtering a mapped sequence keeps as many elements as filtering the
/// sequence by the composed predicate `r`.
pub proof fn lemma_filter_mapped_len<A, B>(
    s: Seq<A>,
    g: spec_fn(A) -> B,
    q: spec_fn(B) -> bool,
    r: spec_fn(A) -> bool,
)
    requires
        forall|x: A| #[trigger] r(x) == q(g(x)),
    ensures
        s.map_values(g).filter(q).len() == s.filter(r).len(),
    decreases s.len(),
{
    reveal(Seq::filter);
    if s.len() > 0 {
        lemma_filter_mapped_len(s.drop_last(), g, q, r);
        assert(s.map_values(g).drop_last() =~= s.drop_last().map_values(g));
        assert(r(s.last()) == q(g(s.last())));
    }
}

/// The multiset of a sequence counts each value as often as it occurs.
pub proof fn lemma_multiset_count<A>(s: Seq<A>, v: A)
    ensures
        s.to_multiset().count(v) == occurrences(s, v),
    decreases s.len(),
{
    reveal(Seq::filter);
    broadcast use vstd::seq_lib::group_to_multiset_ensures;

    if s.len() > 0 {
        lemma_multiset_count(s.drop_last(), v);
        assert(s.drop_last().push(s.last()) =~= s);
    }
}

/// Occurrences in a concatenation add up.
pub proof fn lemma_occurrences_add<A>(a: Seq<A>, b: Seq<A>, v: A)
    ensures
        occurrences(a + b, v) == occurrences(a, v) + occurrences(b, v),
{
    Seq::filter_distributes_over_add(a, b, |y: A| y == v);
}

/// The occurrences of a value are shared out between the elements that meet
/// a predicate and those that do not.
pub proof fn lemma_occurrences_split<A>(s: Seq<A>, p: spec_fn(A) -> bool, v: A)
    ensures
        occurrences(s, v) == occurrences(s.filter(p), v) + occurrences(
            s.filter(|x: A| !p(x)),
            v,
        ),
{
    let eq = |y: A| y == v;
    let np = |x: A| !p(x);
    lemma_filter_complement_len(s.filter(eq), p);
    lemma_filter_twice(s, eq, p);
    lemma_filter_twice(s, p, eq);
    lemma_filter_twice(s, eq, np);
    lemma_filter_twice(s, np, eq);
    lemma_filter_agreeing(s, |x: A| eq(x) && p(x), |x: A| p(x) && eq(x));
    lemma_filter_agreeing(s, |x: A| eq(x) && np(x), |x: A| np(x) && eq(x));
}

/// Two sequences whose values occur equally often have the same multiset.
pub proof fn lemma_same_occurrences_same_multiset<A>(a: Seq<A>, b: Seq<A>)
    requires
        forall|v: A| #[trigger] occurrences(a, v) == occurrences(b, v),
    ensures
        a.to_multiset() == b.to_multiset(),
{
    assert forall|v: A| a.to_multiset().count(v) == b.to_multiset().count(v) by {
        lemma_multiset_count(a, v);
        lemma_multiset_count(b, v);
        assert(occurrences(a, v) == occurrences(b, v));
    }
    assert(a.to_multiset() =~= b.to_multiset());
}

/// Mapping by a one-to-one function keeps two sequences with the same
/// multiset of values having the same multiset.
pub proof fn lemma_injective_map_same_multiset<A, B>(a: Seq<A>, b: Seq<A>, g: spec_fn(A) -> B)
    requires
        a.to_multiset() == b.to_multiset(),
        forall|x: A, y: A| #[trigger] g(x) == #[trigger] g(y) ==> x == y,
    ensures
        a.map_values(g).to_multiset() == b.map_values(g).to_multiset(),
{
    assert forall|w: B| #[trigger]
        occurrences(a.map_values(g), w) == occurrences(b.map_values(g), w) by {
        let eqw = |y: B| y == w;
        let hits = |x: A| eqw(g(x));
        lemma_filter_mapped_len(a, g, eqw, hits);
        lemma_filter_mapped_len(b, g, eqw, hits);
        if exists|x: A| #[trigger] g(x) == w {
            let x0 = choose|x: A| #[trigger] g(x) == w;
            let eqx = |y: A| y == x0;
            lemma_filter_agreeing(a, hits, eqx);
            lemma_filter_agreeing(b, hits, eqx);
            lemma_multiset_count(a, x0);
            lemma_multiset_count(b, x0);
        } else {
            lemma_filter_none(a, hits);
            lemma_filter_none(b, hits);
        }
    }
    lemma_same_occurrences_same_multiset(a.map_values(g), b.map_values(g));
}

} // verus!
