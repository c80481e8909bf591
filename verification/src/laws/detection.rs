//! What fires, and what does not.

use vstd::prelude::*;

use crate::ack::{is_acked, message_acks};
use crate::anchor::{gate_file, gate_paths, guarded, ANCHOR_NAME};
use crate::compiled::{CompiledModel, ModeModel, SemanticKind};
use crate::detect::{
    all_matches, any_line_finds, content_hit, current_names, detected, fired_with, kept_paths,
    matched_by, registry_touched, FiredModel,
};
use crate::gitdiff::{
    added_lines, law_two_field_line_gives_its_path, name_status_entries, FileEntryModel,
};
use crate::laws::acks::law_exit_class;
use crate::pattern::{any_finds, finds, regex_finds};
use crate::run::evaluated;
use crate::seqs::{lemma_filter_items, lemma_same_filter};
use crate::text::lines;

verus! {

/// Some changed file has that path.
pub open spec fn changed(files: Seq<FileEntryModel>, path: Seq<char>) -> bool {
    exists|i: int| 0 <= i < files.len() && (#[trigger] files[i]).path == path
}

/// Where a file's flag depends on its path alone, the paths that are kept are the
/// changed ones whose flag is set.
proof fn lemma_kept_paths(
    files: Seq<FileEntryModel>,
    flags: Seq<bool>,
    keep: spec_fn(Seq<char>) -> bool,
)
    requires
        flags.len() == files.len(),
        forall|i: int| 0 <= i < files.len() ==> #[trigger] flags[i] == keep(files[i].path),
    ensures
        forall|path: Seq<char>|
            #[trigger] kept_paths(files, flags).contains(path) <==> changed(files, path) && keep(
                path,
            ),
    decreases files.len(),
{
    let all = kept_paths(files, flags);
    if files.len() > 0 {
        let front = files.drop_last();
        lemma_kept_paths(front, flags.drop_last(), keep);
        let kept = kept_paths(front, flags.drop_last());
        assert(files[files.len() - 1] == files.last());
        assert(flags[files.len() - 1] == flags.last());
        assert forall|path: Seq<char>| #[trigger] all.contains(path) <==> changed(files, path)
            && keep(path) by {
            assert(kept.contains(path) <==> changed(front, path) && keep(path));
            if all.contains(path) {
                let k = choose|k: int| 0 <= k < all.len() && all[k] == path;
                if k < kept.len() {
                    assert(kept[k] == path);
                    let i = choose|i: int|
                        0 <= i < front.len() && (#[trigger] front[i]).path == path;
                    assert(files[i].path == path);
                }
            }
            if changed(files, path) && keep(path) {
                let i = choose|i: int| 0 <= i < files.len() && (#[trigger] files[i]).path == path;
                if i < front.len() {
                    assert(front[i].path == path);
                    let k = choose|k: int| 0 <= k < kept.len() && kept[k] == path;
                    assert(all[k] == path);
                } else {
                    assert(all[kept.len() as int] == path);
                }
            }
        }
    }
}

/// A path checkpoint matches the changed paths that some pattern of it matches, and
/// no others.
pub proof fn law_path_matches(
    patterns: Seq<Seq<char>>,
    current: Seq<Seq<char>>,
    files: Seq<FileEntryModel>,
    added: Map<Seq<char>, Seq<Seq<char>>>,
    base: Option<Seq<Seq<char>>>,
    path: Seq<char>,
)
    ensures
        matched_by(ModeModel::Path(patterns), current, files, added, base).contains(path)
            <==> changed(files, path) && any_finds(patterns, path),
{
    lemma_kept_paths(
        files,
        files.map_values(|f: FileEntryModel| any_finds(patterns, f.path)),
        |p: Seq<char>| any_finds(patterns, p),
    );
}

/// A content checkpoint matches the changed paths that no exemption matches and that
/// gained a line that some pattern matches, and no others.
pub proof fn law_content_matches(
    patterns: Seq<Seq<char>>,
    exempt: Seq<Seq<char>>,
    current: Seq<Seq<char>>,
    files: Seq<FileEntryModel>,
    added: Map<Seq<char>, Seq<Seq<char>>>,
    base: Option<Seq<Seq<char>>>,
    path: Seq<char>,
)
    ensures
        matched_by(
            ModeModel::Content { patterns, exempt },
            current,
            files,
            added,
            base,
        ).contains(path) <==> {
            &&& changed(files, path)
            &&& !any_finds(exempt, path)
            &&& added.contains_key(path)
            &&& any_line_finds(patterns, added[path])
        },
{
    lemma_kept_paths(
        files,
        files.map_values(|f: FileEntryModel| content_hit(patterns, exempt, added, f.path)),
        |p: Seq<char>| content_hit(patterns, exempt, added, p),
    );
}

/// A checkpoint-removed check matches the names of the base that no checkpoint has
/// now, and no others, when the base is known and a registry changed; otherwise
/// nothing.
pub proof fn law_removed_matches(
    current: Seq<Seq<char>>,
    files: Seq<FileEntryModel>,
    added: Map<Seq<char>, Seq<Seq<char>>>,
    base: Option<Seq<Seq<char>>>,
    name: Seq<char>,
)
    ensures
        matched_by(
            ModeModel::Semantic(SemanticKind::CheckpointRemoved),
            current,
            files,
            added,
            base,
        ).contains(name) <==> {
            &&& base matches Some(names) && names.contains(name)
            &&& registry_touched(files)
            &&& !current.contains(name)
        },
{
    if let Some(names) = base {
        lemma_filter_items(names, |n: Seq<char>| !current.contains(n));
    }
}

/// What a checkpoint says when it fires.
pub open spec fn fire_of(
    cp: CompiledModel,
    current: Seq<Seq<char>>,
    files: Seq<FileEntryModel>,
    added: Map<Seq<char>, Seq<Seq<char>>>,
    base: Option<Seq<Seq<char>>>,
) -> FiredModel {
    FiredModel {
        name: cp.name,
        summary: cp.summary,
        matched: matched_by(cp.mode, current, files, added, base),
    }
}

/// The fires are those of the checkpoints whose matches are not empty.
proof fn lemma_fired_with(cps: Seq<CompiledModel>, matches: Seq<Seq<Seq<char>>>, f: FiredModel)
    requires
        matches.len() == cps.len(),
    ensures
        fired_with(cps, matches).len() <= cps.len(),
        fired_with(cps, matches).contains(f) <==> f.matched.len() > 0 && exists|i: int|
            0 <= i < cps.len() && (#[trigger] cps[i]).name == f.name && cps[i].summary == f.summary
                && matches[i] == f.matched,
    decreases cps.len(),
{
    let all = fired_with(cps, matches);
    if cps.len() > 0 {
        let front = cps.drop_last();
        let front_matches = matches.drop_last();
        let n = cps.len() - 1;
        lemma_fired_with(front, front_matches, f);
        let fired = fired_with(front, front_matches);
        assert(cps[n] == cps.last() && matches[n] == matches.last());
        if all.contains(f) {
            let k = choose|k: int| 0 <= k < all.len() && all[k] == f;
            if k < fired.len() {
                assert(fired[k] == f);
                let i = choose|i: int|
                    0 <= i < front.len() && (#[trigger] front[i]).name == f.name && front[i].summary
                        == f.summary && front_matches[i] == f.matched;
                assert(cps[i] == front[i]);
            }
        }
        if f.matched.len() > 0 && exists|i: int|
            0 <= i < cps.len() && (#[trigger] cps[i]).name == f.name && cps[i].summary == f.summary
                && matches[i] == f.matched {
            let i = choose|i: int|
                0 <= i < cps.len() && (#[trigger] cps[i]).name == f.name && cps[i].summary
                    == f.summary && matches[i] == f.matched;
            if i < n {
                assert(front[i].name == f.name);
                let k = choose|k: int| 0 <= k < fired.len() && fired[k] == f;
                assert(all[k] == f);
            } else {
                assert(all[fired.len() as int] == f);
            }
        }
    }
}

/// Each checkpoint that matches something fires, with all that it matches; nothing
/// else fires; and there is at most one fire for each checkpoint.
pub proof fn law_fires(
    cps: Seq<CompiledModel>,
    files: Seq<FileEntryModel>,
    added: Map<Seq<char>, Seq<Seq<char>>>,
    base: Option<Seq<Seq<char>>>,
    f: FiredModel,
)
    ensures
        detected(cps, files, added, base).len() <= cps.len(),
        detected(cps, files, added, base).contains(f) <==> f.matched.len() > 0 && exists|i: int|
            0 <= i < cps.len() && f == fire_of(
                #[trigger] cps[i],
                current_names(cps),
                files,
                added,
                base,
            ),
{
    let matches = all_matches(cps, files, added, base);
    lemma_fired_with(cps, matches, f);
    if exists|i: int|
        0 <= i < cps.len() && (#[trigger] cps[i]).name == f.name && cps[i].summary == f.summary
            && matches[i] == f.matched {
        let i = choose|i: int|
            0 <= i < cps.len() && (#[trigger] cps[i]).name == f.name && cps[i].summary == f.summary
                && matches[i] == f.matched;
        assert(f == fire_of(cps[i], current_names(cps), files, added, base));
    }
    if exists|i: int|
        0 <= i < cps.len() && f == fire_of(
            #[trigger] cps[i],
            current_names(cps),
            files,
            added,
            base,
        ) {
        let i = choose|i: int|
            0 <= i < cps.len() && f == fire_of(
                #[trigger] cps[i],
                current_names(cps),
                files,
                added,
                base,
            );
        assert(cps[i].name == f.name && matches[i] == f.matched);
    }
}

/// What the base held matters to checkpoint-removed checks alone: once the last of
/// those is gone, no checkpoint sees what else was removed.
pub proof fn law_base_matters_to_removal_alone(
    cps: Seq<CompiledModel>,
    files: Seq<FileEntryModel>,
    added: Map<Seq<char>, Seq<Seq<char>>>,
    one: Option<Seq<Seq<char>>>,
    other: Option<Seq<Seq<char>>>,
)
    requires
        forall|i: int| 0 <= i < cps.len() ==> !((#[trigger] cps[i]).mode is Semantic),
    ensures
        detected(cps, files, added, one) == detected(cps, files, added, other),
{
    assert(all_matches(cps, files, added, one) =~= all_matches(cps, files, added, other));
}

// ── The anchor ───────────────────────────────────────────────────────────────

/// A change of one of commitward's own files fires the anchor, with its path among the
/// matches, whatever checkpoints run. Without such a change the anchor adds nothing.
pub proof fn law_anchor(
    cps: Seq<CompiledModel>,
    files: Seq<FileEntryModel>,
    added: Map<Seq<char>, Seq<Seq<char>>>,
    base: Option<Seq<Seq<char>>>,
)
    ensures
        forall|path: Seq<char>|
            #[trigger] changed(files, path) && gate_file(path) ==> {
                let anchor = guarded(cps, files, added, base).last();
                &&& guarded(cps, files, added, base).contains(anchor)
                &&& anchor.name == ANCHOR_NAME@
                &&& anchor.matched.contains(path)
            },
        (forall|path: Seq<char>| #[trigger] changed(files, path) ==> !gate_file(path))
            ==> guarded(cps, files, added, base) == detected(cps, files, added, base),
{
    let paths = gate_paths(files);
    let all = guarded(cps, files, added, base);
    lemma_kept_paths(
        files,
        files.map_values(|f: FileEntryModel| gate_file(f.path)),
        |p: Seq<char>| gate_file(p),
    );
    assert forall|path: Seq<char>| #[trigger] changed(files, path) && gate_file(path) implies ({
        &&& all.contains(all.last())
        &&& all.last().name == ANCHOR_NAME@
        &&& all.last().matched.contains(path)
    }) by {
        assert(paths.contains(path));
        assert(all.last() == all[all.len() - 1]);
    }
    if paths.len() > 0 {
        assert(paths.contains(paths[0]));
    }
}

/// An unacknowledged change of one of commitward's own files blocks, whatever
/// checkpoints run.
pub proof fn law_anchor_blocks(
    cps: Seq<CompiledModel>,
    name_status: Seq<char>,
    diff: Seq<char>,
    base: Option<Seq<Seq<char>>>,
    commit_msg: Seq<char>,
    path: Seq<char>,
)
    requires
        changed(name_status_entries(name_status), path),
        gate_file(path),
        !is_acked(message_acks(commit_msg), ANCHOR_NAME@),
    ensures
        evaluated(cps, name_status, diff, base, commit_msg).exit_class == 2,
{
    let files = name_status_entries(name_status);
    let fired = guarded(cps, files, added_lines(diff), base);
    law_anchor(cps, files, added_lines(diff), base);
    law_exit_class(fired, message_acks(commit_msg));
    assert(fired.contains(fired.last()));
}

/// A diff that changes no file fires nothing.
pub proof fn law_no_change_no_fire(
    cps: Seq<CompiledModel>,
    diff: Seq<char>,
    base: Option<Seq<Seq<char>>>,
    commit_msg: Seq<char>,
)
    ensures
        evaluated(cps, Seq::empty(), diff, base, commit_msg).fired.len() == 0,
        evaluated(cps, Seq::empty(), diff, base, commit_msg).exit_class == 0,
{
    let files = name_status_entries(Seq::empty());
    let added = added_lines(diff);
    assert(lines(Seq::empty()).len() == 0);
    assert(files.len() == 0);
    let fired = detected(cps, files, added, base);
    if fired.len() > 0 {
        assert(fired.contains(fired[0]));
        law_fires(cps, files, added, base, fired[0]);
        let i = choose|i: int|
            0 <= i < cps.len() && fired[0] == fire_of(
                #[trigger] cps[i],
                current_names(cps),
                files,
                added,
                base,
            );
        assert(matched_by(cps[i].mode, current_names(cps), files, added, base).len() == 0);
    }
}

/// A deleted path that a path checkpoint guards fires, with that path among the
/// matches: so does the old path of a rename, which a diff without rename detection
/// reports as deleted.
pub proof fn law_deleted_path_fires(
    cps: Seq<CompiledModel>,
    i: int,
    patterns: Seq<Seq<char>>,
    name_status: Seq<char>,
    k: int,
    path: Seq<char>,
    added: Map<Seq<char>, Seq<Seq<char>>>,
    base: Option<Seq<Seq<char>>>,
)
    requires
        0 <= i < cps.len(),
        cps[i].mode == ModeModel::Path(patterns),
        any_finds(patterns, path),
        0 <= k < lines(name_status).len(),
        lines(name_status)[k] == seq!['D', '\t'] + path,
        path.len() > 0,
        !path.contains('\t'),
    ensures
        exists|f: FiredModel| #[trigger]
            detected(cps, name_status_entries(name_status), added, base).contains(f) && f.name
                == cps[i].name && f.matched.contains(path),
{
    let files = name_status_entries(name_status);
    law_two_field_line_gives_its_path(name_status, k, 'D', path);
    let entry = FileEntryModel { status: 'D', path };
    let j = choose|j: int| 0 <= j < files.len() && files[j] == entry;
    assert(files[j].path == path);
    law_path_matches(patterns, current_names(cps), files, added, base, path);
    let f = fire_of(cps[i], current_names(cps), files, added, base);
    assert(f.matched.contains(path));
    law_fires(cps, files, added, base, f);
}

// ── In full ──────────────────────────────────────────────────────────────────

/// Where a file's flag says whether it passes, the kept paths are those of the files
/// that pass, in order.
proof fn lemma_kept_in_order(
    files: Seq<FileEntryModel>,
    flags: Seq<bool>,
    keep: spec_fn(FileEntryModel) -> bool,
)
    requires
        flags.len() == files.len(),
        forall|i: int| 0 <= i < files.len() ==> #[trigger] flags[i] == keep(files[i]),
    ensures
        kept_paths(files, flags) == files.filter(keep).map_values(|f: FileEntryModel| f.path),
    decreases files.len(),
{
    reveal(Seq::filter);
    let path = |f: FileEntryModel| f.path;
    if files.len() > 0 {
        let front = files.drop_last();
        lemma_kept_in_order(front, flags.drop_last(), keep);
        assert(flags[files.len() - 1] == keep(files[files.len() - 1]));
        assert(kept_paths(files, flags) =~= files.filter(keep).map_values(path));
    } else {
        assert(kept_paths(files, flags) =~= files.filter(keep).map_values(path));
    }
}

/// A path checkpoint lists the paths of all the changed files that any one of its
/// patterns matches, ignoring case, in the order of the files.
pub proof fn law_path_list(
    patterns: Seq<Seq<char>>,
    current: Seq<Seq<char>>,
    files: Seq<FileEntryModel>,
    added: Map<Seq<char>, Seq<Seq<char>>>,
    base: Option<Seq<Seq<char>>>,
)
    ensures
        matched_by(ModeModel::Path(patterns), current, files, added, base) == files.filter(
            |f: FileEntryModel|
                exists|j: int|
                    0 <= j < patterns.len() && regex_finds(#[trigger] patterns[j], true, f.path),
        ).map_values(|f: FileEntryModel| f.path),
{
    let keep = |f: FileEntryModel|
        exists|j: int|
            0 <= j < patterns.len() && regex_finds(#[trigger] patterns[j], true, f.path);
    let flags = files.map_values(|f: FileEntryModel| any_finds(patterns, f.path));
    assert forall|i: int| 0 <= i < files.len() implies #[trigger] flags[i] == keep(files[i]) by {
        let path = files[i].path;
        if any_finds(patterns, path) {
            let j = choose|j: int| 0 <= j < patterns.len() && finds(#[trigger] patterns[j], path);
            assert(regex_finds(patterns[j], true, path));
        }
        if keep(files[i]) {
            let j = choose|j: int|
                0 <= j < patterns.len() && regex_finds(#[trigger] patterns[j], true, path);
            assert(finds(patterns[j], path));
        }
    }
    lemma_kept_in_order(files, flags, keep);
}

/// Some line matches some pattern, both by index.
pub open spec fn some_line_matches(patterns: Seq<Seq<char>>, rows: Seq<Seq<char>>) -> bool {
    exists|k: int, j: int|
        #![trigger rows[k], patterns[j]]
        0 <= k < rows.len() && 0 <= j < patterns.len() && regex_finds(patterns[j], true, rows[k])
}

/// A content checkpoint lists the paths of all the changed files that none of its
/// exemptions matches and any added line of which any one of its patterns matches,
/// ignoring case, in the order of the files.
pub proof fn law_content_list(
    patterns: Seq<Seq<char>>,
    exempt: Seq<Seq<char>>,
    current: Seq<Seq<char>>,
    files: Seq<FileEntryModel>,
    added: Map<Seq<char>, Seq<Seq<char>>>,
    base: Option<Seq<Seq<char>>>,
)
    ensures
        matched_by(ModeModel::Content { patterns, exempt }, current, files, added, base)
            == files.filter(
            |f: FileEntryModel|
                {
                    &&& forall|j: int|
                        0 <= j < exempt.len() ==> !regex_finds(#[trigger] exempt[j], true, f.path)
                    &&& added.contains_key(f.path)
                    &&& some_line_matches(patterns, added[f.path])
                },
        ).map_values(|f: FileEntryModel| f.path),
{
    let keep = |f: FileEntryModel|
        {
            &&& forall|j: int|
                0 <= j < exempt.len() ==> !regex_finds(#[trigger] exempt[j], true, f.path)
            &&& added.contains_key(f.path)
            &&& some_line_matches(patterns, added[f.path])
        };
    let flags = files.map_values(|f: FileEntryModel| content_hit(patterns, exempt, added, f.path));
    assert forall|i: int| 0 <= i < files.len() implies #[trigger] flags[i] == keep(files[i]) by {
        let path = files[i].path;
        let rows = added[path];
        if any_finds(exempt, path) {
            let j = choose|j: int| 0 <= j < exempt.len() && finds(#[trigger] exempt[j], path);
            assert(regex_finds(exempt[j], true, path));
        } else {
            assert forall|j: int| 0 <= j < exempt.len() implies !regex_finds(
                #[trigger] exempt[j],
                true,
                path,
            ) by {
                assert(!finds(exempt[j], path));
            }
        }
        if any_line_finds(patterns, rows) {
            let k = choose|k: int| 0 <= k < rows.len() && any_finds(patterns, #[trigger] rows[k]);
            let j = choose|j: int|
                0 <= j < patterns.len() && finds(#[trigger] patterns[j], rows[k]);
            assert(regex_finds(patterns[j], true, rows[k]));
        }
        if some_line_matches(patterns, rows) {
            let (k, j) = choose|k: int, j: int|
                #![trigger rows[k], patterns[j]]
                0 <= k < rows.len() && 0 <= j < patterns.len() && regex_finds(
                    patterns[j],
                    true,
                    rows[k],
                );
            assert(finds(patterns[j], rows[k]));
            assert(any_finds(patterns, rows[k]));
        }
    }
    lemma_kept_in_order(files, flags, keep);
}

/// A checkpoint-removed check lists all the names of the base that no checkpoint has
/// now, in their order, when the base is known and any one of the changed paths ends
/// with `checkpoints.yaml`. Otherwise it lists nothing.
pub proof fn law_removed_list(
    current: Seq<Seq<char>>,
    files: Seq<FileEntryModel>,
    added: Map<Seq<char>, Seq<Seq<char>>>,
    names: Seq<Seq<char>>,
)
    ensures
        forall|i: int|
            0 <= i < files.len() && "checkpoints.yaml"@.is_suffix_of((#[trigger] files[i]).path)
                ==> matched_by(
                ModeModel::Semantic(SemanticKind::CheckpointRemoved),
                current,
                files,
                added,
                Some(names),
            ) == names.filter(
                |name: Seq<char>|
                    forall|k: int| 0 <= k < current.len() ==> #[trigger] current[k] != name,
            ),
        (forall|i: int|
            0 <= i < files.len() ==> !"checkpoints.yaml"@.is_suffix_of((#[trigger] files[i]).path))
            ==> matched_by(
            ModeModel::Semantic(SemanticKind::CheckpointRemoved),
            current,
            files,
            added,
            Some(names),
        ) == Seq::<Seq<char>>::empty(),
        matched_by(
            ModeModel::Semantic(SemanticKind::CheckpointRemoved),
            current,
            files,
            added,
            None,
        ) == Seq::<Seq<char>>::empty(),
{
    let gone = |name: Seq<char>|
        forall|k: int| 0 <= k < current.len() ==> #[trigger] current[k] != name;
    let missing = |name: Seq<char>| !current.contains(name);
    lemma_same_filter(names, gone, missing);
    assert forall|i: int| 0 <= i < files.len() && "checkpoints.yaml"@.is_suffix_of(
        (#[trigger] files[i]).path,
    ) implies matched_by(
        ModeModel::Semantic(SemanticKind::CheckpointRemoved),
        current,
        files,
        added,
        Some(names),
    ) == names.filter(gone) by {
        assert(registry_touched(files));
    }
}

/// What fires is, for each checkpoint in order, its name, its summary and its list of
/// matches, without those whose list is empty. The names that a removal is held against
/// are those of all the checkpoints.
pub proof fn law_detected_list(
    cps: Seq<CompiledModel>,
    files: Seq<FileEntryModel>,
    added: Map<Seq<char>, Seq<Seq<char>>>,
    base: Option<Seq<Seq<char>>>,
)
    ensures
        detected(cps, files, added, base) == cps.map_values(
            |cp: CompiledModel|
                FiredModel {
                    name: cp.name,
                    summary: cp.summary,
                    matched: matched_by(
                        cp.mode,
                        cps.map_values(|c: CompiledModel| c.name),
                        files,
                        added,
                        base,
                    ),
                },
        ).filter(|f: FiredModel| f.matched.len() > 0),
{
    let names = cps.map_values(|c: CompiledModel| c.name);
    let fire = |cp: CompiledModel|
        FiredModel {
            name: cp.name,
            summary: cp.summary,
            matched: matched_by(cp.mode, names, files, added, base),
        };
    assert(current_names(cps) =~= names);
    let matches = all_matches(cps, files, added, base);
    assert forall|i: int| 0 <= i < cps.len() implies #[trigger] matches[i] == fire(
        cps[i],
    ).matched by {}
    lemma_fired_in_order(cps, matches, fire);
}

/// Fires in order, out of what each checkpoint matched.
proof fn lemma_fired_in_order(
    cps: Seq<CompiledModel>,
    matches: Seq<Seq<Seq<char>>>,
    fire: spec_fn(CompiledModel) -> FiredModel,
)
    requires
        matches.len() == cps.len(),
        forall|i: int| 0 <= i < cps.len() ==> #[trigger] matches[i] == fire(cps[i]).matched,
        forall|cp: CompiledModel|
            (#[trigger] fire(cp)).name == cp.name && fire(cp).summary == cp.summary,
    ensures
        fired_with(cps, matches) == cps.map_values(fire).filter(
            |f: FiredModel| f.matched.len() > 0,
        ),
    decreases cps.len(),
{
    reveal(Seq::filter);
    let some = |f: FiredModel| f.matched.len() > 0;
    if cps.len() > 0 {
        let front = cps.drop_last();
        lemma_fired_in_order(front, matches.drop_last(), fire);
        let last = cps.last();
        assert(matches[cps.len() - 1] == fire(cps[cps.len() - 1]).matched);
        assert(cps.map_values(fire).drop_last() =~= front.map_values(fire));
        assert(cps.map_values(fire).last() == fire(last));
        assert(fire(last) == (FiredModel {
            name: last.name,
            summary: last.summary,
            matched: matches.last(),
        }));
    } else {
        assert(fired_with(cps, matches) =~= cps.map_values(fire).filter(some));
    }
}

// ── By index ─────────────────────────────────────────────────────────────────

/// There is a fire of that name and summary, with that among its matches.
pub open spec fn fires_with(
    fired: Seq<FiredModel>,
    name: Seq<char>,
    summary: Seq<char>,
    matched: Seq<char>,
) -> bool {
    exists|k: int, m: int|
        #![trigger fired[k].matched[m]]
        0 <= k < fired.len() && fired[k].name == name && fired[k].summary == summary && 0 <= m
            < fired[k].matched.len() && fired[k].matched[m] == matched
}

/// A checkpoint that matches something fires with it.
proof fn lemma_match_fires(
    cps: Seq<CompiledModel>,
    i: int,
    files: Seq<FileEntryModel>,
    added: Map<Seq<char>, Seq<Seq<char>>>,
    base: Option<Seq<Seq<char>>>,
    m: Seq<char>,
)
    requires
        0 <= i < cps.len(),
        matched_by(cps[i].mode, current_names(cps), files, added, base).contains(m),
    ensures
        fires_with(detected(cps, files, added, base), cps[i].name, cps[i].summary, m),
{
    let fired = detected(cps, files, added, base);
    let f = fire_of(cps[i], current_names(cps), files, added, base);
    let n = choose|n: int| 0 <= n < f.matched.len() && f.matched[n] == m;
    assert(f.matched.len() > 0);
    law_fires(cps, files, added, base, f);
    let k = choose|k: int| 0 <= k < fired.len() && fired[k] == f;
    assert(fired[k].matched[n] == m);
}

/// A path checkpoint fires on any changed file whose path any of its patterns matches,
/// wherever the checkpoint, the file and the pattern stand.
pub proof fn law_any_path_fires(
    cps: Seq<CompiledModel>,
    i: int,
    patterns: Seq<Seq<char>>,
    j: int,
    files: Seq<FileEntryModel>,
    n: int,
    added: Map<Seq<char>, Seq<Seq<char>>>,
    base: Option<Seq<Seq<char>>>,
)
    requires
        0 <= i < cps.len(),
        cps[i].mode == ModeModel::Path(patterns),
        0 <= n < files.len(),
        0 <= j < patterns.len(),
        regex_finds(patterns[j], true, files[n].path),
    ensures
        fires_with(
            detected(cps, files, added, base),
            cps[i].name,
            cps[i].summary,
            files[n].path,
        ),
{
    assert(finds(patterns[j], files[n].path));
    assert(any_finds(patterns, files[n].path));
    law_path_matches(patterns, current_names(cps), files, added, base, files[n].path);
    lemma_match_fires(cps, i, files, added, base, files[n].path);
}

/// A content checkpoint fires on any changed file that none of its exemptions matches
/// and any added line of which any of its patterns matches, wherever the checkpoint, the
/// file, the line and the pattern stand.
pub proof fn law_any_line_fires(
    cps: Seq<CompiledModel>,
    i: int,
    patterns: Seq<Seq<char>>,
    exempt: Seq<Seq<char>>,
    j: int,
    files: Seq<FileEntryModel>,
    n: int,
    added: Map<Seq<char>, Seq<Seq<char>>>,
    k: int,
    base: Option<Seq<Seq<char>>>,
)
    requires
        0 <= i < cps.len(),
        cps[i].mode == (ModeModel::Content { patterns, exempt }),
        0 <= n < files.len(),
        forall|e: int|
            0 <= e < exempt.len() ==> !regex_finds(#[trigger] exempt[e], true, files[n].path),
        added.contains_key(files[n].path),
        0 <= k < added[files[n].path].len(),
        0 <= j < patterns.len(),
        regex_finds(patterns[j], true, added[files[n].path][k]),
    ensures
        fires_with(
            detected(cps, files, added, base),
            cps[i].name,
            cps[i].summary,
            files[n].path,
        ),
{
    let path = files[n].path;
    if any_finds(exempt, path) {
        let e = choose|e: int| 0 <= e < exempt.len() && finds(#[trigger] exempt[e], path);
        assert(!regex_finds(exempt[e], true, path));
    }
    assert(finds(patterns[j], added[path][k]));
    assert(any_finds(patterns, added[path][k]));
    law_content_matches(patterns, exempt, current_names(cps), files, added, base, path);
    lemma_match_fires(cps, i, files, added, base, path);
}

/// A checkpoint-removed check fires on any name of the base that no checkpoint has now,
/// as soon as any changed path ends with `checkpoints.yaml`, wherever the check, the file
/// and the name stand.
pub proof fn law_any_removal_fires(
    cps: Seq<CompiledModel>,
    i: int,
    files: Seq<FileEntryModel>,
    n: int,
    dir: Seq<char>,
    added: Map<Seq<char>, Seq<Seq<char>>>,
    names: Seq<Seq<char>>,
    k: int,
)
    requires
        0 <= i < cps.len(),
        cps[i].mode == ModeModel::Semantic(SemanticKind::CheckpointRemoved),
        0 <= n < files.len(),
        files[n].path == dir + "checkpoints.yaml"@,
        0 <= k < names.len(),
        forall|c: int| 0 <= c < cps.len() ==> (#[trigger] cps[c]).name != names[k],
    ensures
        fires_with(
            detected(cps, files, added, Some(names)),
            cps[i].name,
            cps[i].summary,
            names[k],
        ),
{
    let path = files[n].path;
    let suffix = "checkpoints.yaml"@;
    assert(suffix =~= path.subrange(path.len() - suffix.len(), path.len() as int));
    assert(suffix.is_suffix_of(files[n].path));
    assert(registry_touched(files));
    assert(names.contains(names[k]));
    if current_names(cps).contains(names[k]) {
        let c = choose|c: int|
            0 <= c < current_names(cps).len() && current_names(cps)[c] == names[k];
        assert(cps[c].name == names[k]);
    }
    law_removed_matches(current_names(cps), files, added, Some(names), names[k]);
    lemma_match_fires(cps, i, files, added, Some(names), names[k]);
}

/// Why a checkpoint has something among its matches.
pub open spec fn has_cause(
    mode: ModeModel,
    cps: Seq<CompiledModel>,
    files: Seq<FileEntryModel>,
    added: Map<Seq<char>, Seq<Seq<char>>>,
    base: Option<Seq<Seq<char>>>,
    m: Seq<char>,
) -> bool {
    match mode {
        ModeModel::Path(patterns) => {
            &&& exists|n: int| 0 <= n < files.len() && (#[trigger] files[n]).path == m
            &&& exists|j: int| 0 <= j < patterns.len() && regex_finds(#[trigger] patterns[j], true, m)
        },
        ModeModel::Content { patterns, exempt } => {
            &&& exists|n: int| 0 <= n < files.len() && (#[trigger] files[n]).path == m
            &&& forall|e: int| 0 <= e < exempt.len() ==> !regex_finds(#[trigger] exempt[e], true, m)
            &&& added.contains_key(m)
            &&& some_line_matches(patterns, added[m])
        },
        ModeModel::Semantic(_) => {
            &&& base matches Some(names) && exists|k: int|
                0 <= k < names.len() && #[trigger] names[k] == m
            &&& exists|n: int|
                0 <= n < files.len() && "checkpoints.yaml"@.is_suffix_of((#[trigger] files[n]).path)
            &&& forall|c: int| 0 <= c < cps.len() ==> (#[trigger] cps[c]).name != m
        },
    }
}

/// Nothing fires without a cause: each fire is of some checkpoint, it has matches, and
/// each of them is there for the reason that the checkpoint's mode asks for.
pub proof fn law_every_fire_has_a_cause(
    cps: Seq<CompiledModel>,
    files: Seq<FileEntryModel>,
    added: Map<Seq<char>, Seq<Seq<char>>>,
    base: Option<Seq<Seq<char>>>,
    f: FiredModel,
)
    requires
        detected(cps, files, added, base).contains(f),
    ensures
        f.matched.len() > 0,
        exists|i: int|
            0 <= i < cps.len() && (#[trigger] cps[i]).name == f.name && cps[i].summary == f.summary
                && forall|m: int|
                0 <= m < f.matched.len() ==> has_cause(
                    cps[i].mode,
                    cps,
                    files,
                    added,
                    base,
                    #[trigger] f.matched[m],
                ),
{
    law_fires(cps, files, added, base, f);
    let i = choose|i: int|
        0 <= i < cps.len() && f == fire_of(
            #[trigger] cps[i],
            current_names(cps),
            files,
            added,
            base,
        );
    let current = current_names(cps);
    assert forall|m: int| 0 <= m < f.matched.len() implies has_cause(
        cps[i].mode,
        cps,
        files,
        added,
        base,
        #[trigger] f.matched[m],
    ) by {
        let x = f.matched[m];
        assert(f.matched.contains(x));
        match cps[i].mode {
            ModeModel::Path(patterns) => {
                law_path_matches(patterns, current, files, added, base, x);
                let j = choose|j: int| 0 <= j < patterns.len() && finds(#[trigger] patterns[j], x);
                assert(regex_finds(patterns[j], true, x));
            },
            ModeModel::Content { patterns, exempt } => {
                law_content_matches(patterns, exempt, current, files, added, base, x);
                let rows = added[x];
                assert forall|e: int| 0 <= e < exempt.len() implies !regex_finds(
                    #[trigger] exempt[e],
                    true,
                    x,
                ) by {
                    assert(!finds(exempt[e], x));
                }
                let k = choose|k: int|
                    0 <= k < rows.len() && any_finds(patterns, #[trigger] rows[k]);
                let j = choose|j: int|
                    0 <= j < patterns.len() && finds(#[trigger] patterns[j], rows[k]);
                assert(regex_finds(patterns[j], true, rows[k]));
            },
            ModeModel::Semantic(SemanticKind::CheckpointRemoved) => {
                law_removed_matches(current, files, added, base, x);
                let names = base->Some_0;
                let k = choose|k: int| 0 <= k < names.len() && names[k] == x;
                assert(names[k] == x);
                assert forall|c: int| 0 <= c < cps.len() implies (#[trigger] cps[c]).name != x by {
                    assert(current[c] == cps[c].name);
                }
            },
        }
    }
}

// ── The anchor, in full ──────────────────────────────────────────────────────

/// The anchor watches the registries and the hook, in the root and in any directory, and
/// no other file.
pub proof fn law_watched_files(path: Seq<char>)
    ensures
        gate_file(path) <==> {
            ||| path == "checkpoints.yaml"@
            ||| path == ".git-hooks/commit-msg"@
            ||| exists|dir: Seq<char>| path == #[trigger] (dir + "/checkpoints.yaml"@)
            ||| exists|dir: Seq<char>| path == #[trigger] (dir + "/.git-hooks/commit-msg"@)
        },
{
    lemma_suffix(path, "/checkpoints.yaml"@);
    lemma_suffix(path, "/.git-hooks/commit-msg"@);
}

/// A text has a suffix just when it is something followed by it.
proof fn lemma_suffix(text: Seq<char>, suffix: Seq<char>)
    ensures
        suffix.is_suffix_of(text) <==> exists|a: Seq<char>| text == #[trigger] (a + suffix),
{
    if suffix.is_suffix_of(text) {
        let a = text.take(text.len() - suffix.len());
        assert(text =~= a + suffix);
    }
    if exists|a: Seq<char>| text == #[trigger] (a + suffix) {
        let a = choose|a: Seq<char>| text == #[trigger] (a + suffix);
        assert(suffix =~= text.subrange(text.len() - suffix.len(), text.len() as int));
    }
}

/// With the anchor, what fires is what the checkpoints fire and, behind that, where any
/// of the files that it watches changed, one fire of the anchor's own with all of them,
/// in order.
pub proof fn law_guarded_list(
    cps: Seq<CompiledModel>,
    files: Seq<FileEntryModel>,
    added: Map<Seq<char>, Seq<Seq<char>>>,
    base: Option<Seq<Seq<char>>>,
)
    ensures
        ({
            let watched = files.filter(|f: FileEntryModel| gate_file(f.path)).map_values(
                |f: FileEntryModel| f.path,
            );
            let all = guarded(cps, files, added, base);
            let fired = detected(cps, files, added, base);
            if watched.len() == 0 {
                all == fired
            } else {
                &&& all.len() == fired.len() + 1
                &&& all.drop_last() == fired
                &&& all.last().name == "anchor-gate-integrity"@
                &&& all.last().matched == watched
            }
        }),
{
    let keep = |f: FileEntryModel| gate_file(f.path);
    let flags = files.map_values(|f: FileEntryModel| gate_file(f.path));
    lemma_kept_in_order(files, flags, keep);
    let all = guarded(cps, files, added, base);
    if gate_paths(files).len() > 0 {
        assert(all.drop_last() =~= detected(cps, files, added, base));
    }
}

} // verus!
