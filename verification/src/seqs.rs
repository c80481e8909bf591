//! Facts about sequences that keep some of the items of another.

use vstd::prelude::*;

verus! {

/// An item that `f` keeps is among the results.
pub proof fn lemma_filter_map_has<A, B>(s: Seq<A>, i: int, f: spec_fn(A) -> Option<B>)
    requires
        0 <= i < s.len(),
        f(s[i]) is Some,
    ensures
        s.filter_map(f).contains(f(s[i])->Some_0),
    decreases s.len(),
{
    let kept = s.drop_last().filter_map(f);
    let b = f(s[i])->Some_0;
    if i == s.len() - 1 {
        assert(s.filter_map(f)[kept.len() as int] == b);
    } else {
        lemma_filter_map_has(s.drop_last(), i, f);
        let k = choose|k: int| 0 <= k < kept.len() && kept[k] == b;
        assert(s.filter_map(f)[k] == b);
    }
}

/// What is kept of a concatenation is what is kept of both parts.
pub proof fn lemma_filter_map_add<A, B>(s: Seq<A>, t: Seq<A>, f: spec_fn(A) -> Option<B>)
    ensures
        (s + t).filter_map(f) == s.filter_map(f) + t.filter_map(f),
    decreases t.len(),
{
    if t.len() == 0 {
        assert(s + t =~= s);
        assert((s + t).filter_map(f) =~= s.filter_map(f) + t.filter_map(f));
    } else {
        lemma_filter_map_add(s, t.drop_last(), f);
        assert((s + t).drop_last() =~= s + t.drop_last());
        assert((s + t).filter_map(f) =~= s.filter_map(f) + t.filter_map(f));
    }
}

/// The items of a filtered sequence are those that pass, and no others.
pub proof fn lemma_filter_items<A>(s: Seq<A>, keep: spec_fn(A) -> bool)
    ensures
        forall|x: A| #[trigger] s.filter(keep).contains(x) <==> s.contains(x) && keep(x),
{
    assert forall|x: A| #[trigger] s.filter(keep).contains(x) <==> s.contains(x) && keep(x) by {
        if s.filter(keep).contains(x) {
            s.lemma_filter_contains_rev(keep, x);
            let k = choose|k: int| 0 <= k < s.filter(keep).len() && s.filter(keep)[k] == x;
            s.lemma_filter_pred(keep, k);
        }
        if s.contains(x) && keep(x) {
            let i = choose|i: int| 0 <= i < s.len() && s[i] == x;
            s.lemma_filter_contains(keep, i);
        }
    }
}

/// A condition and its opposite part a sequence: together they keep as many items as
/// there are.
pub proof fn lemma_filter_parts<A>(s: Seq<A>, keep: spec_fn(A) -> bool, other: spec_fn(A) -> bool)
    requires
        forall|x: A| #[trigger] other(x) == !keep(x),
    ensures
        s.filter(keep).len() + s.filter(other).len() == s.len(),
    decreases s.len(),
{
    reveal(Seq::filter);
    if s.len() > 0 {
        lemma_filter_parts(s.drop_last(), keep, other);
        assert(other(s.last()) == !keep(s.last()));
    }
}

/// Conditions that agree keep the same items.
pub proof fn lemma_same_filter<A>(s: Seq<A>, p: spec_fn(A) -> bool, q: spec_fn(A) -> bool)
    requires
        forall|i: int| 0 <= i < s.len() ==> p(#[trigger] s[i]) == q(s[i]),
    ensures
        s.filter(p) == s.filter(q),
    decreases s.len(),
{
    reveal(Seq::filter);
    if s.len() > 0 {
        let front = s.drop_last();
        assert forall|i: int| 0 <= i < front.len() implies p(#[trigger] front[i]) == q(
            front[i],
        ) by {
            assert(p(s[i]) == q(s[i]));
        }
        lemma_same_filter(front, p, q);
        assert(p(s[s.len() - 1]) == q(s[s.len() - 1]));
    }
}

} // verus!
