//! What merging and compiling registries does.

use vstd::prelude::*;

use crate::baseline::comes_before;
use crate::compiled::{
    compiled, compiled_one, first_bad, lemma_first_bad, mode_count, CompiledModel, ModeModel,
    SemanticKind,
};
use crate::pattern::{built_regex, compiles};
use crate::registry::{
    has_name, merged, named, source_names, CheckpointErrorModel, CheckpointModel, RegistrySource,
};
use crate::seqs::{lemma_filter_items, lemma_same_filter};

verus! {

/// The checkpoint of a name that counts is one of those of that name.
proof fn lemma_named(cps: Seq<CheckpointModel>, name: Seq<char>)
    ensures
        named(cps, name) is Some <==> has_name(cps, name),
        named(cps, name) matches Some(cp) ==> cps.contains(cp) && cp.name == name,
    decreases cps.len(),
{
    if cps.len() > 0 {
        let front = cps.drop_last();
        assert(cps[cps.len() - 1] == cps.last());
        if cps.last().name != name {
            lemma_named(front, name);
            if let Some(cp) = named(front, name) {
                let k = choose|k: int| 0 <= k < front.len() && front[k] == cp;
                assert(cps[k] == cp);
            }
            if has_name(cps, name) {
                let k = choose|k: int| 0 <= k < cps.len() && (#[trigger] cps[k]).name == name;
                assert(front[k].name == name);
            }
        }
    }
}

/// The names of two merged registries are the names of either.
pub proof fn law_merge_names(
    global: Seq<CheckpointModel>,
    repo: Seq<CheckpointModel>,
    name: Seq<char>,
)
    ensures
        has_name(merged(global, repo), name) <==> has_name(global, name) || has_name(repo, name),
{
    let both = merged(global, repo);
    let fresh = |cp: CheckpointModel| !has_name(global, cp.name);
    let rest = repo.filter(fresh);
    lemma_filter_items(repo, fresh);
    assert forall|i: int| 0 <= i < global.len() implies #[trigger] both[i].name
        == global[i].name by {
        lemma_named(repo, global[i].name);
    }
    if has_name(both, name) {
        let i = choose|i: int| 0 <= i < both.len() && (#[trigger] both[i]).name == name;
        if i < global.len() {
            assert(global[i].name == name);
        } else {
            assert(rest.contains(rest[i - global.len()]));
            let k = choose|k: int| 0 <= k < repo.len() && repo[k] == rest[i - global.len()];
            assert(repo[k].name == name);
        }
    }
    if has_name(global, name) {
        let i = choose|i: int| 0 <= i < global.len() && (#[trigger] global[i]).name == name;
        assert(both[i].name == name);
    } else if has_name(repo, name) {
        let k = choose|k: int| 0 <= k < repo.len() && (#[trigger] repo[k]).name == name;
        assert(repo.contains(repo[k]));
        assert(rest.contains(repo[k]));
        let j = choose|j: int| 0 <= j < rest.len() && rest[j] == repo[k];
        assert(both[global.len() + j].name == name);
    }
}

/// A repository checkpoint replaces the global one of the same name: of a name that
/// the repository has, a merged registry holds what the repository says; of any
/// other, what the global registry says.
pub proof fn law_merge_repo_wins(
    global: Seq<CheckpointModel>,
    repo: Seq<CheckpointModel>,
    cp: CheckpointModel,
)
    requires
        merged(global, repo).contains(cp),
    ensures
        has_name(repo, cp.name) ==> repo.contains(cp),
        !has_name(repo, cp.name) ==> global.contains(cp),
{
    let both = merged(global, repo);
    let fresh = |c: CheckpointModel| !has_name(global, c.name);
    let rest = repo.filter(fresh);
    lemma_filter_items(repo, fresh);
    let i = choose|i: int| 0 <= i < both.len() && both[i] == cp;
    if i < global.len() {
        lemma_named(repo, global[i].name);
        assert(global.contains(global[i]));
    } else {
        assert(rest.contains(rest[i - global.len()]));
        let k = choose|k: int| 0 <= k < repo.len() && repo[k] == cp;
        assert(repo[k].name == cp.name);
    }
}

/// No two checkpoints have one name.
pub open spec fn distinct_names(cps: Seq<CheckpointModel>) -> bool {
    forall|i: int, j: int|
        0 <= i < j < cps.len() ==> (#[trigger] cps[i]).name != (#[trigger] cps[j]).name
}

/// What passes a condition keeps distinct names.
proof fn lemma_filter_distinct(cps: Seq<CheckpointModel>, keep: spec_fn(CheckpointModel) -> bool)
    requires
        distinct_names(cps),
    ensures
        distinct_names(cps.filter(keep)),
    decreases cps.len(),
{
    reveal(Seq::filter);
    if cps.len() > 0 {
        let front = cps.drop_last();
        assert forall|i: int, j: int| 0 <= i < j < front.len() implies (#[trigger] front[i]).name
            != (#[trigger] front[j]).name by {
            assert(cps[i].name != cps[j].name);
        }
        lemma_filter_distinct(front, keep);
        lemma_filter_items(front, keep);
        let kept = front.filter(keep);
        let all = cps.filter(keep);
        assert forall|i: int, j: int| 0 <= i < j < all.len() implies (#[trigger] all[i]).name != (
        #[trigger] all[j]).name by {
            if j == kept.len() {
                assert(kept.contains(kept[i]));
                let k = choose|k: int| 0 <= k < front.len() && front[k] == kept[i];
                assert(cps[k].name != cps[cps.len() - 1].name);
            }
        }
    }
}

/// Merging keeps the global registry's order: its checkpoints come first, each at
/// its place, and behind them stand the repository's others, in order. Where the
/// names of both registries are distinct, those of the merged one are.
pub proof fn law_merge_order(global: Seq<CheckpointModel>, repo: Seq<CheckpointModel>)
    ensures
        merged(global, repo).len() >= global.len(),
        forall|i: int|
            0 <= i < global.len() ==> (#[trigger] merged(global, repo)[i]).name == global[i].name,
        merged(global, repo).skip(global.len() as int) == repo.filter(
            |cp: CheckpointModel| !has_name(global, cp.name),
        ),
        distinct_names(global) && distinct_names(repo) ==> distinct_names(merged(global, repo)),
{
    let both = merged(global, repo);
    let fresh = |cp: CheckpointModel| !has_name(global, cp.name);
    let rest = repo.filter(fresh);
    lemma_filter_items(repo, fresh);
    assert forall|i: int| 0 <= i < global.len() implies (#[trigger] both[i]).name
        == global[i].name by {
        lemma_named(repo, global[i].name);
    }
    assert(both.skip(global.len() as int) =~= rest);
    if distinct_names(global) && distinct_names(repo) {
        lemma_filter_distinct(repo, fresh);
        assert forall|i: int, j: int| 0 <= i < j < both.len() implies (#[trigger] both[i]).name
            != (#[trigger] both[j]).name by {
            if i < global.len() && j < global.len() {
                assert(global[i].name != global[j].name);
            } else if i < global.len() {
                assert(rest.contains(rest[j - global.len()]));
                assert(global[i].name == both[i].name);
            } else {
                assert(rest[i - global.len()].name != rest[j - global.len()].name);
            }
        }
    }
}

/// An empty registry changes nothing: merging with one gives the other.
pub proof fn law_merge_empty(cps: Seq<CheckpointModel>)
    ensures
        merged(cps, Seq::empty()) == cps,
        merged(Seq::empty(), cps) == cps,
{
    let none = Seq::<CheckpointModel>::empty();
    reveal(Seq::filter);
    assert(merged(cps, none) =~= cps);
    let fresh = |cp: CheckpointModel| !has_name(none, cp.name);
    lemma_filter_all(cps, fresh);
    assert(merged(none, cps) =~= cps);
}

/// A condition that every item meets keeps them all.
proof fn lemma_filter_all(
    cps: Seq<CheckpointModel>,
    keep: spec_fn(CheckpointModel) -> bool,
)
    requires
        forall|cp: CheckpointModel| #[trigger] keep(cp),
    ensures
        cps.filter(keep) == cps,
    decreases cps.len(),
{
    reveal(Seq::filter);
    if cps.len() > 0 {
        lemma_filter_all(cps.drop_last(), keep);
        assert(keep(cps.last()));
        assert(cps.filter(keep) =~= cps);
    } else {
        assert(cps.filter(keep) =~= cps);
    }
}

/// A checkpoint that compiles: it sets exactly one of `paths`, `content` and
/// `semantic`, its semantic check exists, and the patterns that its mode uses compile.
pub open spec fn well_declared(cp: CheckpointModel) -> bool {
    &&& mode_count(cp) == 1
    &&& cp.semantic is Some ==> cp.semantic == Some("checkpoint_removed"@)
    &&& forall|i: int| 0 <= i < cp.paths.len() ==> compiles(#[trigger] cp.paths[i])
    &&& forall|i: int| 0 <= i < cp.content.len() ==> compiles(#[trigger] cp.content[i])
    &&& cp.content.len() > 0 ==> forall|i: int|
        0 <= i < cp.content_exempt_paths.len() ==> compiles(#[trigger] cp.content_exempt_paths[i])
}

/// No pattern is the first that does not compile just when they all do.
proof fn lemma_none_bad(patterns: Seq<Seq<char>>)
    ensures
        first_bad(patterns) is None <==> forall|i: int|
            0 <= i < patterns.len() ==> compiles(#[trigger] patterns[i]),
    decreases patterns.len(),
{
    if patterns.len() > 0 {
        let front = patterns.drop_last();
        lemma_none_bad(front);
        assert(patterns[patterns.len() - 1] == patterns.last());
        assert forall|i: int| 0 <= i < front.len() implies front[i] == #[trigger] patterns[i] by {}
        if forall|i: int| 0 <= i < patterns.len() ==> compiles(#[trigger] patterns[i]) {
            assert forall|i: int| 0 <= i < front.len() implies compiles(#[trigger] front[i]) by {
                assert(compiles(patterns[i]));
            }
        }
        if first_bad(patterns) is None {
            assert forall|i: int| 0 <= i < patterns.len() implies compiles(
                #[trigger] patterns[i],
            ) by {
                if i < front.len() {
                    assert(compiles(front[i]));
                }
            }
        }
    }
}

/// A checkpoint compiles just when it is well declared, and keeps its name, its
/// summary and its document.
pub proof fn law_compile_one(cp: CheckpointModel)
    ensures
        compiled_one(cp) is Ok <==> well_declared(cp),
        compiled_one(cp) matches Ok(done) ==> done.name == cp.name && done.summary == cp.summary
            && done.standards_doc == cp.standards_doc,
{
    lemma_none_bad(cp.paths);
    lemma_none_bad(cp.content);
    lemma_none_bad(cp.content_exempt_paths);
}

/// Checkpoints compile just when each of them does, one for one and in order. An
/// error is that of the first that does not.
pub proof fn law_compile(cps: Seq<CheckpointModel>)
    ensures
        compiled(cps) is Ok <==> forall|i: int|
            0 <= i < cps.len() ==> compiled_one(#[trigger] cps[i]) is Ok,
        compiled(cps) matches Ok(done) ==> done.len() == cps.len() && forall|i: int|
            0 <= i < cps.len() ==> compiled_one(#[trigger] cps[i]) == Ok::<
                CompiledModel,
                CheckpointErrorModel,
            >(done[i]),
        compiled(cps) matches Err(e) ==> exists|k: int|
            {
                &&& 0 <= k < cps.len()
                &&& compiled_one(#[trigger] cps[k]) == Err::<CompiledModel, CheckpointErrorModel>(e)
                &&& forall|i: int| 0 <= i < k ==> compiled_one(#[trigger] cps[i]) is Ok
            },
    decreases cps.len(),
{
    if cps.len() > 0 {
        let front = cps.drop_last();
        let n = cps.len() - 1;
        law_compile(front);
        assert(cps[n] == cps.last());
        assert forall|i: int| 0 <= i < n implies front[i] == #[trigger] cps[i] by {}
        match compiled(front) {
            Err(e) => {
                let k = choose|k: int|
                    {
                        &&& 0 <= k < front.len()
                        &&& compiled_one(#[trigger] front[k]) == Err::<
                            CompiledModel,
                            CheckpointErrorModel,
                        >(e)
                        &&& forall|i: int| 0 <= i < k ==> compiled_one(#[trigger] front[i]) is Ok
                    };
                assert(cps[k] == front[k]);
                assert forall|i: int| 0 <= i < k implies compiled_one(#[trigger] cps[i]) is Ok by {
                    assert(compiled_one(front[i]) is Ok);
                }
            },
            Ok(done) => {
                assert forall|i: int| 0 <= i < n implies compiled_one(#[trigger] cps[i]) == Ok::<
                    CompiledModel,
                    CheckpointErrorModel,
                >(done[i]) by {
                    assert(compiled_one(front[i]) is Ok);
                }
            },
        }
    }
}

// ── Merging, entry by entry ──────────────────────────────────────────────────

/// The last checkpoint of a name is the one that counts.
proof fn lemma_last_named(cps: Seq<CheckpointModel>, j: int)
    requires
        0 <= j < cps.len(),
        forall|k: int| j < k < cps.len() ==> (#[trigger] cps[k]).name != cps[j].name,
    ensures
        named(cps, cps[j].name) == Some(cps[j]),
    decreases cps.len(),
{
    if j < cps.len() - 1 {
        assert(cps[cps.len() - 1].name != cps[j].name);
        let front = cps.drop_last();
        assert forall|k: int| j < k < front.len() implies (#[trigger] front[k]).name
            != front[j].name by {
            assert(cps[k].name != cps[j].name);
        }
        lemma_last_named(front, j);
    }
}

/// At the place of each global checkpoint a merged registry holds the repository's last
/// one of the same name, where there is one, and else the global one itself. Behind them
/// stand, in order, the repository's checkpoints whose name no global one has.
pub proof fn law_merge_by_entry(global: Seq<CheckpointModel>, repo: Seq<CheckpointModel>)
    ensures
        merged(global, repo).len() >= global.len(),
        forall|i: int, j: int|
            #![trigger global[i], repo[j]]
            0 <= i < global.len() && 0 <= j < repo.len() && repo[j].name == global[i].name && (
            forall|k: int| j < k < repo.len() ==> (#[trigger] repo[k]).name != global[i].name)
                ==> merged(global, repo)[i] == repo[j],
        forall|i: int|
            0 <= i < global.len() && (forall|j: int|
                0 <= j < repo.len() ==> (#[trigger] repo[j]).name != global[i].name)
                ==> #[trigger] merged(global, repo)[i] == global[i],
        merged(global, repo).skip(global.len() as int) == repo.filter(
            |cp: CheckpointModel|
                forall|i: int| 0 <= i < global.len() ==> (#[trigger] global[i]).name != cp.name,
        ),
{
    let both = merged(global, repo);
    assert forall|i: int, j: int|
        #![trigger global[i], repo[j]]
        0 <= i < global.len() && 0 <= j < repo.len() && repo[j].name == global[i].name && (forall|
            k: int,
        |
            j < k < repo.len() ==> (#[trigger] repo[k]).name != global[i].name) implies both[i]
        == repo[j] by {
        lemma_last_named(repo, j);
    }
    assert forall|i: int|
        0 <= i < global.len() && (forall|j: int|
            0 <= j < repo.len() ==> (#[trigger] repo[j]).name
                != global[i].name) implies #[trigger] both[i] == global[i] by {
        lemma_named(repo, global[i].name);
        if has_name(repo, global[i].name) {
            let j = choose|j: int|
                0 <= j < repo.len() && (#[trigger] repo[j]).name == global[i].name;
            assert(repo[j].name != global[i].name);
        }
    }
    let fresh = |cp: CheckpointModel| !has_name(global, cp.name);
    let other = |cp: CheckpointModel|
        forall|i: int| 0 <= i < global.len() ==> (#[trigger] global[i]).name != cp.name;
    assert forall|k: int| 0 <= k < repo.len() implies fresh(#[trigger] repo[k]) == other(repo[k]) by {
        if !fresh(repo[k]) {
            let i = choose|i: int|
                0 <= i < global.len() && (#[trigger] global[i]).name == repo[k].name;
            assert(global[i].name == repo[k].name);
        }
    }
    lemma_same_filter(repo, fresh, other);
    assert(both.skip(global.len() as int) =~= repo.filter(fresh));
}

// ── Compiling, case by case ──────────────────────────────────────────────────

/// All the patterns build, ignoring case.
pub open spec fn all_build(patterns: Seq<Seq<char>>) -> bool {
    forall|i: int| 0 <= i < patterns.len() ==> built_regex(#[trigger] patterns[i], true) is Ok
}

/// The pattern at `i` does not build, and those before it do.
pub open spec fn first_unbuilt(patterns: Seq<Seq<char>>, i: int) -> bool {
    &&& 0 <= i < patterns.len()
    &&& built_regex(patterns[i], true) is Err
    &&& forall|j: int| 0 <= j < i ==> built_regex(#[trigger] patterns[j], true) is Ok
}

/// Exactly one of the three modes is set.
pub open spec fn one_mode(cp: CheckpointModel) -> bool {
    let p = cp.paths.len() > 0;
    let c = cp.content.len() > 0;
    let s = cp.semantic is Some;
    (p && !c && !s) || (!p && c && !s) || (!p && !c && s)
}

/// All build just when none is the first that does not.
proof fn lemma_all_build(patterns: Seq<Seq<char>>)
    ensures
        first_bad(patterns) is None <==> all_build(patterns),
        forall|i: int| #[trigger] first_unbuilt(patterns, i) ==> first_bad(patterns) == Some(
            patterns[i],
        ),
{
    lemma_none_bad(patterns);
    if first_bad(patterns) is None {
        assert forall|i: int| 0 <= i < patterns.len() implies built_regex(
            #[trigger] patterns[i],
            true,
        ) is Ok by {
            assert(compiles(patterns[i]));
        }
    }
    if all_build(patterns) {
        assert forall|i: int| 0 <= i < patterns.len() implies compiles(#[trigger] patterns[i]) by {
            assert(built_regex(patterns[i], true) is Ok);
        }
    }
    assert forall|i: int| #[trigger] first_unbuilt(patterns, i) implies first_bad(patterns) == Some(
        patterns[i],
    ) by {
        assert forall|j: int| 0 <= j < i implies compiles(#[trigger] patterns[j]) by {
            assert(built_regex(patterns[j], true) is Ok);
        }
        lemma_first_bad(patterns, i);
    }
}

/// A checkpoint that sets exactly one mode, whose patterns all build and whose semantic
/// check exists, compiles to its name, its summary and its document, with the mode that
/// it sets and all of the mode's patterns, in order.
pub proof fn law_compiled_whole(cp: CheckpointModel)
    requires
        one_mode(cp),
    ensures
        cp.paths.len() > 0 && all_build(cp.paths) ==> compiled_one(cp) == Ok::<
            CompiledModel,
            CheckpointErrorModel,
        >(
            CompiledModel {
                name: cp.name,
                summary: cp.summary,
                standards_doc: cp.standards_doc,
                mode: ModeModel::Path(cp.paths),
            },
        ),
        cp.content.len() > 0 && all_build(cp.content) && all_build(cp.content_exempt_paths)
            ==> compiled_one(cp) == Ok::<CompiledModel, CheckpointErrorModel>(
            CompiledModel {
                name: cp.name,
                summary: cp.summary,
                standards_doc: cp.standards_doc,
                mode: ModeModel::Content {
                    patterns: cp.content,
                    exempt: cp.content_exempt_paths,
                },
            },
        ),
        cp.semantic == Some("checkpoint_removed"@) ==> compiled_one(cp) == Ok::<
            CompiledModel,
            CheckpointErrorModel,
        >(
            CompiledModel {
                name: cp.name,
                summary: cp.summary,
                standards_doc: cp.standards_doc,
                mode: ModeModel::Semantic(SemanticKind::CheckpointRemoved),
            },
        ),
{
    lemma_all_build(cp.paths);
    lemma_all_build(cp.content);
    lemma_all_build(cp.content_exempt_paths);
}

/// What a compiled checkpoint holds is what the checkpoint declared, all of it.
pub proof fn law_compiled_mode(cp: CheckpointModel)
    requires
        compiled_one(cp) is Ok,
    ensures
        one_mode(cp),
        compiled_one(cp)->Ok_0.name == cp.name,
        compiled_one(cp)->Ok_0.summary == cp.summary,
        compiled_one(cp)->Ok_0.standards_doc == cp.standards_doc,
        cp.paths.len() > 0 ==> compiled_one(cp)->Ok_0.mode == ModeModel::Path(cp.paths) && all_build(
            cp.paths,
        ),
        cp.content.len() > 0 ==> compiled_one(cp)->Ok_0.mode == (ModeModel::Content {
            patterns: cp.content,
            exempt: cp.content_exempt_paths,
        }) && all_build(cp.content) && all_build(cp.content_exempt_paths),
        cp.semantic is Some ==> compiled_one(cp)->Ok_0.mode == ModeModel::Semantic(
            SemanticKind::CheckpointRemoved,
        ) && cp.semantic == Some("checkpoint_removed"@),
{
    lemma_all_build(cp.paths);
    lemma_all_build(cp.content);
    lemma_all_build(cp.content_exempt_paths);
}

/// Each error comes just on its inputs: `AmbiguousMode` where not exactly one mode is
/// set, `UnknownSemantic` where the only mode is a semantic check that does not exist,
/// and `Regex` with the reason of the first pattern that does not build, exemptions
/// coming after the patterns of the content.
pub proof fn law_compile_errors(cp: CheckpointModel)
    ensures
        !one_mode(cp) <==> compiled_one(cp) == Err::<CompiledModel, CheckpointErrorModel>(
            CheckpointErrorModel::AmbiguousMode(cp.name),
        ),
        (one_mode(cp) && cp.semantic is Some && cp.semantic != Some("checkpoint_removed"@))
            <==> compiled_one(cp) == Err::<CompiledModel, CheckpointErrorModel>(
            CheckpointErrorModel::UnknownSemantic(cp.name, cp.semantic->Some_0),
        ),
        forall|i: int|
            one_mode(cp) && #[trigger] first_unbuilt(cp.paths, i) ==> compiled_one(cp) == Err::<
                CompiledModel,
                CheckpointErrorModel,
            >(CheckpointErrorModel::Regex(cp.name, built_regex(cp.paths[i], true)->Err_0)),
        forall|i: int|
            one_mode(cp) && #[trigger] first_unbuilt(cp.content, i) ==> compiled_one(cp) == Err::<
                CompiledModel,
                CheckpointErrorModel,
            >(CheckpointErrorModel::Regex(cp.name, built_regex(cp.content[i], true)->Err_0)),
        forall|i: int|
            one_mode(cp) && cp.content.len() > 0 && all_build(cp.content)
                && #[trigger] first_unbuilt(cp.content_exempt_paths, i) ==> compiled_one(cp)
                == Err::<CompiledModel, CheckpointErrorModel>(
                CheckpointErrorModel::Regex(
                    cp.name,
                    built_regex(cp.content_exempt_paths[i], true)->Err_0,
                ),
            ),
{
    lemma_all_build(cp.paths);
    lemma_all_build(cp.content);
    lemma_all_build(cp.content_exempt_paths);
}

/// What each error says.
pub proof fn law_error_messages(a: Seq<char>, b: Seq<char>)
    ensures
        CheckpointErrorModel::Parse(a, b).message() == a + ": "@ + b,
        CheckpointErrorModel::Regex(a, b).message() == "checkpoint '"@ + a + "': pattern: "@ + b,
        CheckpointErrorModel::UnknownSemantic(a, b).message() == "checkpoint '"@ + a
            + "': unknown semantic '"@ + b + "'"@,
        CheckpointErrorModel::AmbiguousMode(a).message() == "checkpoint '"@ + a
            + "': set exactly one of paths|content|semantic"@,
{
}

// ── Names ────────────────────────────────────────────────────────────────────

/// A registry gives the names of all its checkpoints, in order, unless its text is empty
/// or does not parse: then it gives none.
pub proof fn law_names_of_a_registry(source: RegistrySource)
    ensures
        source.text@.len() == 0 || source.parsed is Err ==> source_names(source).len() == 0,
        source.text@.len() > 0 && source.parsed is Ok ==> {
            let cps = source.parsed->Ok_0@;
            &&& source_names(source).len() == cps.len()
            &&& forall|i: int|
                0 <= i < cps.len() ==> #[trigger] source_names(source)[i] == cps[i].name@
        },
{
}

/// A name comes before another just when, behind what both begin with, it ends and the
/// other goes on, or its next character is the lower one.
pub proof fn law_order_of_names(a: Seq<char>, b: Seq<char>)
    ensures
        comes_before(a, b) <==> exists|k: int|
            {
                &&& 0 <= k <= a.len()
                &&& k < b.len()
                &&& #[trigger] a.take(k) == b.take(k)
                &&& k == a.len() || a[k] < b[k]
            },
    decreases a.len(),
{
    if b.len() > 0 && a.len() > 0 && a[0] == b[0] {
        let c = a.drop_first();
        let d = b.drop_first();
        law_order_of_names(c, d);
        if comes_before(a, b) {
            let k = choose|k: int|
                {
                    &&& 0 <= k <= c.len()
                    &&& k < d.len()
                    &&& #[trigger] c.take(k) == d.take(k)
                    &&& k == c.len() || c[k] < d[k]
                };
            assert(a.take(k + 1) =~= seq![a[0]] + c.take(k));
            assert(b.take(k + 1) =~= seq![b[0]] + d.take(k));
            assert(a.take(k + 1) == b.take(k + 1));
        }
        if exists|k: int|
            {
                &&& 0 <= k <= a.len()
                &&& k < b.len()
                &&& #[trigger] a.take(k) == b.take(k)
                &&& k == a.len() || a[k] < b[k]
            } {
            let k = choose|k: int|
                {
                    &&& 0 <= k <= a.len()
                    &&& k < b.len()
                    &&& #[trigger] a.take(k) == b.take(k)
                    &&& k == a.len() || a[k] < b[k]
                };
            assert(k > 0);
            assert(c.take(k - 1) =~= a.take(k).drop_first());
            assert(d.take(k - 1) =~= b.take(k).drop_first());
            assert(c.take(k - 1) == d.take(k - 1));
        }
    } else if b.len() > 0 {
        assert(a.take(0) =~= b.take(0));
        if a.len() > 0 {
            assert forall|k: int| 0 < k <= a.len() && k < b.len() implies #[trigger] a.take(k)
                != b.take(k) by {
                assert(a.take(k)[0] == a[0]);
                assert(b.take(k)[0] == b[0]);
            }
        }
    }
}

} // verus!
