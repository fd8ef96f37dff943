//! Sums of a weight over a sequence.
use vstd::prelude::*;

verus! {

/// The sum of `f` over `s`.
pub open spec fn sum<A>(s: Seq<A>, f: spec_fn(A) -> nat) -> nat
    decreases s.len(),
{
    if s.len() == 0 {
        0
    } else {
        sum(s.drop_last(), f) + f(s.last())
    }
}

pub proof fn lemma_sum_push<A>(s: Seq<A>, a: A, f: spec_fn(A) -> nat)
    ensures
        sum(s.push(a), f) == sum(s, f) + f(a),
{
    assert(s.push(a).drop_last() =~= s);
}

pub proof fn lemma_sum_add<A>(s: Seq<A>, t: Seq<A>, f: spec_fn(A) -> nat)
    ensures
        sum(s + t, f) == sum(s, f) + sum(t, f),
    decreases t.len(),
{
    if t.len() == 0 {
        assert(s + t =~= s);
    } else {
        assert((s + t).drop_last() =~= s + t.drop_last());
        lemma_sum_add(s, t.drop_last(), f);
    }
}

pub proof fn lemma_sum_first<A>(s: Seq<A>, f: spec_fn(A) -> nat)
    requires
        s.len() > 0,
    ensures
        sum(s, f) == f(s[0]) + sum(s.drop_first(), f),
{
    let head = seq![s[0]];
    assert(s =~= head + s.drop_first());
    lemma_sum_add(head, s.drop_first(), f);
    assert(head.drop_last() =~= Seq::empty());
    assert(sum(head, f) == f(s[0])) by {
        reveal_with_fuel(sum, 2);
    }
}

pub proof fn lemma_sum_remove<A>(s: Seq<A>, i: int, f: spec_fn(A) -> nat)
    requires
        0 <= i < s.len(),
    ensures
        sum(s.remove(i), f) + f(s[i]) == sum(s, f),
{
    let head = s.take(i);
    let tail = s.skip(i);
    assert(s =~= head + tail);
    assert(s.remove(i) =~= head + tail.drop_first());
    lemma_sum_add(head, tail, f);
    lemma_sum_add(head, tail.drop_first(), f);
    lemma_sum_first(tail, f);
}

/// A filter and its complement share the whole between them.
pub proof fn lemma_sum_split<A>(
    s: Seq<A>,
    p: spec_fn(A) -> bool,
    q: spec_fn(A) -> bool,
    f: spec_fn(A) -> nat,
)
    requires
        forall|i: int| 0 <= i < s.len() ==> p(#[trigger] s[i]) == !q(s[i]),
    ensures
        sum(s.filter(p), f) + sum(s.filter(q), f) == sum(s, f),
    decreases s.len(),
{
    reveal(Seq::filter);
    if s.len() > 0 {
        let t = s.drop_last();
        assert forall|i: int| 0 <= i < t.len() implies p(#[trigger] t[i]) == !q(t[i]) by {
            assert(t[i] == s[i]);
        }
        lemma_sum_split(t, p, q, f);
        assert(p(s[s.len() - 1]) == !q(s[s.len() - 1]));
        if p(s.last()) {
            lemma_sum_push(t.filter(p), s.last(), f);
        } else {
            lemma_sum_push(t.filter(q), s.last(), f);
        }
    }
}

/// Summing over images is summing the composed weight.
pub proof fn lemma_sum_map<A, B>(
    s: Seq<A>,
    g: spec_fn(A) -> B,
    f: spec_fn(B) -> nat,
    h: spec_fn(A) -> nat,
)
    requires
        forall|a: A| #[trigger] h(a) == f(g(a)),
    ensures
        sum(s.map_values(g), f) == sum(s, h),
    decreases s.len(),
{
    if s.len() > 0 {
        assert(s.map_values(g).drop_last() =~= s.drop_last().map_values(g));
        assert(s.map_values(g).last() == g(s.last()));
        lemma_sum_map(s.drop_last(), g, f, h);
        assert(h(s.last()) == f(g(s.last())));
    }
}

/// A weight that is nowhere larger sums to no more.
pub proof fn lemma_sum_monotone<A>(s: Seq<A>, f: spec_fn(A) -> nat, g: spec_fn(A) -> nat)
    requires
        forall|i: int| 0 <= i < s.len() ==> f(#[trigger] s[i]) <= g(s[i]),
    ensures
        sum(s, f) <= sum(s, g),
    decreases s.len(),
{
    if s.len() > 0 {
        let t = s.drop_last();
        assert forall|i: int| 0 <= i < t.len() implies f(#[trigger] t[i]) <= g(t[i]) by {
            assert(t[i] == s[i]);
        }
        lemma_sum_monotone(t, f, g);
        assert(f(s[s.len() - 1]) <= g(s[s.len() - 1]));
    }
}

} // verus!
