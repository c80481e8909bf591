//! The checkpoint names that the registries held at the base of a diff.

use vstd::prelude::*;

use crate::registry::{extract_checkpoint_names, source_names, RegistrySource};
use crate::text::chars_of;

verus! {

// ── Ordered names ────────────────────────────────────────────────────────────

/// `a` comes before `b`: by the first character in which they differ, a text before
/// its continuations.
pub open spec fn comes_before(a: Seq<char>, b: Seq<char>) -> bool
    decreases a.len(),
{
    if b.len() == 0 {
        false
    } else if a.len() == 0 {
        true
    } else if a[0] != b[0] {
        a[0] < b[0]
    } else {
        comes_before(a.drop_first(), b.drop_first())
    }
}

/// Every name comes before those that follow it.
pub open spec fn ascending(names: Seq<Seq<char>>) -> bool {
    forall|i: int, j: int|
        0 <= i < j < names.len() ==> comes_before(#[trigger] names[i], #[trigger] names[j])
}

/// Ordered names with one more, which stays single.
pub open spec fn with_name(names: Seq<Seq<char>>, name: Seq<char>) -> Seq<Seq<char>>
    decreases names.len(),
{
    if names.len() == 0 {
        seq![name]
    } else if names.last() == name {
        names
    } else if comes_before(names.last(), name) {
        names.push(name)
    } else {
        with_name(names.drop_last(), name).push(names.last())
    }
}

/// The names in order, each once.
pub open spec fn ordered(names: Seq<Seq<char>>) -> Seq<Seq<char>>
    decreases names.len(),
{
    if names.len() == 0 {
        Seq::empty()
    } else {
        with_name(ordered(names.drop_last()), names.last())
    }
}

/// Of two different texts one comes before the other, and only one.
pub proof fn lemma_one_comes_before(a: Seq<char>, b: Seq<char>)
    ensures
        a == b || comes_before(a, b) || comes_before(b, a),
        !(comes_before(a, b) && comes_before(b, a)),
        !comes_before(a, a),
    decreases a.len(),
{
    if a.len() > 0 {
        lemma_one_comes_before(a.drop_first(), a.drop_first());
        if b.len() > 0 && a[0] == b[0] {
            lemma_one_comes_before(a.drop_first(), b.drop_first());
            if a.drop_first() == b.drop_first() {
                assert(a =~= seq![a[0]] + a.drop_first());
                assert(b =~= seq![b[0]] + b.drop_first());
            }
        }
    } else if b.len() == 0 {
        assert(a =~= b);
    }
}

/// What comes before a text comes before all that the text comes before.
pub proof fn lemma_comes_before_transitive(a: Seq<char>, b: Seq<char>, c: Seq<char>)
    requires
        comes_before(a, b),
        comes_before(b, c),
    ensures
        comes_before(a, c),
    decreases a.len(),
{
    if a.len() > 0 && b.len() > 0 && c.len() > 0 && a[0] == b[0] && b[0] == c[0] {
        lemma_comes_before_transitive(a.drop_first(), b.drop_first(), c.drop_first());
    }
}

/// One more name keeps the order, and adds that name alone.
proof fn lemma_with_name(names: Seq<Seq<char>>, name: Seq<char>)
    requires
        ascending(names),
    ensures
        ascending(with_name(names, name)),
        forall|x: Seq<char>|
            #[trigger] with_name(names, name).contains(x) <==> names.contains(x) || x == name,
    decreases names.len(),
{
    let out = with_name(names, name);
    if names.len() == 0 {
        assert(out[0] == name);
    } else if names.last() == name {
        assert(names[names.len() - 1] == name);
    } else if comes_before(names.last(), name) {
        assert forall|i: int, j: int| 0 <= i < j < out.len() implies comes_before(
            #[trigger] out[i],
            #[trigger] out[j],
        ) by {
            if j == names.len() && i < names.len() - 1 {
                assert(comes_before(names[i], names[names.len() - 1]));
                lemma_comes_before_transitive(names[i], names.last(), name);
            }
        }
        assert forall|x: Seq<char>| #[trigger] out.contains(x) <==> names.contains(x) || x
            == name by {
            assert(out[names.len() as int] == name);
            if names.contains(x) {
                let k = choose|k: int| 0 <= k < names.len() && names[k] == x;
                assert(out[k] == x);
            }
            if out.contains(x) {
                let k = choose|k: int| 0 <= k < out.len() && out[k] == x;
                if k < names.len() {
                    assert(names[k] == x);
                }
            }
        }
    } else {
        let front = names.drop_last();
        let last = names.last();
        assert forall|i: int, j: int| 0 <= i < j < front.len() implies comes_before(
            #[trigger] front[i],
            #[trigger] front[j],
        ) by {
            assert(comes_before(names[i], names[j]));
        }
        lemma_with_name(front, name);
        lemma_one_comes_before(last, name);
        let inner = with_name(front, name);
        assert forall|i: int, j: int| 0 <= i < j < out.len() implies comes_before(
            #[trigger] out[i],
            #[trigger] out[j],
        ) by {
            if j == inner.len() {
                assert(inner.contains(inner[i]));
                if front.contains(inner[i]) {
                    let k = choose|k: int| 0 <= k < front.len() && front[k] == inner[i];
                    assert(comes_before(names[k], names[names.len() - 1]));
                }
            }
        }
        assert forall|x: Seq<char>| #[trigger] out.contains(x) <==> names.contains(x) || x
            == name by {
            assert(inner.contains(x) <==> front.contains(x) || x == name);
            assert(out[inner.len() as int] == last);
            if inner.contains(x) {
                let k = choose|k: int| 0 <= k < inner.len() && inner[k] == x;
                assert(out[k] == x);
            }
            if front.contains(x) {
                let k = choose|k: int| 0 <= k < front.len() && front[k] == x;
                assert(names[k] == x);
            }
            if names.contains(x) {
                let k = choose|k: int| 0 <= k < names.len() && names[k] == x;
                if k < front.len() {
                    assert(front[k] == x);
                }
            }
            if out.contains(x) {
                let k = choose|k: int| 0 <= k < out.len() && out[k] == x;
                if k < inner.len() {
                    assert(inner[k] == x);
                } else {
                    assert(names[names.len() - 1] == x);
                }
            }
        }
    }
}

/// The ordered names ascend, so that none occurs twice, and are the given names.
pub proof fn law_ordered_names(names: Seq<Seq<char>>)
    ensures
        ascending(ordered(names)),
        forall|x: Seq<char>| #[trigger] ordered(names).contains(x) <==> names.contains(x),
    decreases names.len(),
{
    if names.len() > 0 {
        let front = names.drop_last();
        law_ordered_names(front);
        lemma_with_name(ordered(front), names.last());
        assert forall|x: Seq<char>| #[trigger] ordered(names).contains(x) <==> names.contains(
            x,
        ) by {
            assert(ordered(front).contains(x) <==> front.contains(x));
            if front.contains(x) {
                let k = choose|k: int| 0 <= k < front.len() && front[k] == x;
                assert(names[k] == x);
            }
            if names.contains(x) {
                let k = choose|k: int| 0 <= k < names.len() && names[k] == x;
                if k < front.len() {
                    assert(front[k] == x);
                }
            }
            assert(names[names.len() - 1] == names.last());
        }
    }
}

/// Whether `a` comes before `b`.
fn precedes(a: &str, b: &str) -> (r: bool)
    ensures
        r == comes_before(a@, b@),
{
    let x = chars_of(a);
    let y = chars_of(b);
    let mut i: usize = 0;
    assert(x@.skip(0) =~= x@);
    assert(y@.skip(0) =~= y@);
    while i < x.len() && i < y.len()
        invariant
            x@ == a@,
            y@ == b@,
            i <= x@.len(),
            i <= y@.len(),
            comes_before(x@, y@) == comes_before(x@.skip(i as int), y@.skip(i as int)),
        decreases x@.len() - i,
    {
        if x[i] != y[i] {
            return x[i] < y[i];
        }
        assert(x@.skip(i as int).drop_first() =~= x@.skip(i + 1));
        assert(y@.skip(i as int).drop_first() =~= y@.skip(i + 1));
        i += 1;
    }
    i < y.len()
}

/// Puts a name in its place among ordered names, unless it is there already.
fn insert_name(names: &mut Vec<String>, name: String)
    ensures
        final(names).deep_view() == with_name(old(names).deep_view(), name@),
{
    let ghost all = names.deep_view();
    let ghost text = name@;
    let mut i: usize = names.len();
    assert(all.take(i as int) =~= all);
    assert(with_name(all, text) =~= with_name(all.take(i as int), text) + all.skip(i as int));
    while i > 0
        invariant
            all == names.deep_view(),
            all == old(names).deep_view(),
            text == name@,
            i <= names@.len(),
            with_name(all, text) == with_name(all.take(i as int), text) + all.skip(i as int),
        ensures
            i <= names@.len(),
            with_name(all, text) == all.take(i as int).push(text) + all.skip(i as int),
        decreases i,
    {
        let ghost front = all.take(i as int);
        assert(front.last() == names[i - 1]@);
        assert(front.drop_last() =~= all.take(i - 1));
        if names[i - 1] == name {
            assert(with_name(all, text) =~= all);
            return;
        }
        if precedes(names[i - 1].as_str(), name.as_str()) {
            break;
        }
        assert(with_name(all.take(i - 1), text) + all.skip(i - 1) =~= with_name(front, text)
            + all.skip(i as int));
        i -= 1;
        assert(i == 0 ==> with_name(all.take(i as int), text) + all.skip(i as int) =~= all.take(
            i as int,
        ).push(text) + all.skip(i as int));
    }
    names.insert(i, name);
    assert(names.deep_view() =~= all.take(i as int).push(text) + all.skip(i as int));
}

// ── Names at the base ────────────────────────────────────────────────────────

/// The names that the base registries give together, in order, each once; unknown
/// when neither was given.
pub open spec fn base_union(
    repo: Option<RegistrySource>,
    global: Option<RegistrySource>,
) -> Option<Seq<Seq<char>>> {
    match (repo, global) {
        (None, None) => None,
        (Some(r), None) => Some(ordered(source_names(r))),
        (None, Some(g)) => Some(ordered(source_names(g))),
        (Some(r), Some(g)) => Some(ordered(source_names(r) + source_names(g))),
    }
}

/// Puts all the names of a registry in their places among ordered names.
fn insert_names(names: &mut Vec<String>, source: &RegistrySource, Ghost(before): Ghost<
    Seq<Seq<char>>,
>)
    requires
        old(names).deep_view() == ordered(before),
    ensures
        final(names).deep_view() == ordered(before + source_names(*source)),
{
    let found = extract_checkpoint_names(source);
    let ghost fs = found.deep_view();
    let mut i: usize = 0;
    assert(before + fs.take(0) =~= before);
    while i < found.len()
        invariant
            fs == found.deep_view(),
            fs == source_names(*source),
            i <= found@.len(),
            names.deep_view() == ordered(before + fs.take(i as int)),
        decreases found@.len() - i,
    {
        assert((before + fs.take(i + 1)).drop_last() =~= before + fs.take(i as int));
        assert((before + fs.take(i + 1)).last() == fs[i as int]);
        insert_name(names, found[i].clone());
        i += 1;
    }
    assert(fs.take(fs.len() as int) =~= fs);
}

/// The names that the base registries give together.
///
/// A removed checkpoint is found whichever of the two it lived in.
pub fn base_names(repo: &Option<RegistrySource>, global: &Option<RegistrySource>) -> (r: Option<
    Vec<String>,
>)
    ensures
        r.deep_view() == base_union(*repo, *global),
{
    if repo.is_none() && global.is_none() {
        return None;
    }
    let mut names: Vec<String> = Vec::new();
    let ghost none = Seq::<Seq<char>>::empty();
    assert(names.deep_view() =~= ordered(none));
    if let Some(source) = repo {
        insert_names(&mut names, source, Ghost(none));
        assert(none + source_names(*source) =~= source_names(*source));
        if let Some(other) = global {
            insert_names(&mut names, other, Ghost(source_names(*source)));
        }
    } else if let Some(other) = global {
        insert_names(&mut names, other, Ghost(none));
        assert(none + source_names(*other) =~= source_names(*other));
    }
    Some(names)
}

} // verus!
