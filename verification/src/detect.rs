//! Running compiled checkpoints against a diff.

use vstd::prelude::*;

use crate::compiled::{CompiledCheckpoint, CompiledModel, Mode, ModeModel, SemanticKind};
use crate::gitdiff::{AddedLines, FileEntry, FileEntryModel};
use crate::pattern::{any_finds, any_match, Pattern};
use crate::registry::clone_texts;
use crate::text::ends_with;

verus! {

/// One fired checkpoint: which one, and the paths or names that it matched.
#[derive(Debug, PartialEq)]
pub struct Fired {
    pub name: String,
    pub summary: String,
    pub matched: Vec<String>,
}

/// The mathematical value of a `Fired`.
#[verifier::ext_equal]
pub struct FiredModel {
    pub name: Seq<char>,
    pub summary: Seq<char>,
    pub matched: Seq<Seq<char>>,
}

impl DeepView for Fired {
    type V = FiredModel;

    open spec fn deep_view(&self) -> FiredModel {
        FiredModel {
            name: self.name@,
            summary: self.summary@,
            matched: self.matched.deep_view(),
        }
    }
}

impl Clone for Fired {
    fn clone(&self) -> (r: Fired)
        ensures
            r.deep_view() == self.deep_view(),
    {
        Fired {
            name: self.name.clone(),
            summary: self.summary.clone(),
            matched: clone_texts(&self.matched),
        }
    }
}

// ── What a mode matches ──────────────────────────────────────────────────────

/// The paths of the files whose flag is set, in order.
pub open spec fn kept_paths(files: Seq<FileEntryModel>, keep: Seq<bool>) -> Seq<Seq<char>>
    decreases files.len(),
{
    if files.len() == 0 {
        Seq::empty()
    } else {
        let front = kept_paths(files.drop_last(), keep.drop_last());
        if keep.last() {
            front.push(files.last().path)
        } else {
            front
        }
    }
}

/// Some of the patterns matches some of the lines.
pub open spec fn any_line_finds(patterns: Seq<Seq<char>>, lines: Seq<Seq<char>>) -> bool {
    exists|i: int| 0 <= i < lines.len() && any_finds(patterns, #[trigger] lines[i])
}

/// The file is not exempt, and some pattern matches one of its added lines.
pub open spec fn content_hit(
    patterns: Seq<Seq<char>>,
    exempt: Seq<Seq<char>>,
    added: Map<Seq<char>, Seq<Seq<char>>>,
    path: Seq<char>,
) -> bool {
    &&& !any_finds(exempt, path)
    &&& added.contains_key(path)
    &&& any_line_finds(patterns, added[path])
}

/// Some changed file is a registry: its path ends with `checkpoints.yaml`.
pub open spec fn registry_touched(files: Seq<FileEntryModel>) -> bool {
    exists|i: int|
        0 <= i < files.len() && "checkpoints.yaml"@.is_suffix_of((#[trigger] files[i]).path)
}

/// The base names that are gone, in order.
pub open spec fn removed(current: Seq<Seq<char>>, base: Seq<Seq<char>>) -> Seq<Seq<char>> {
    base.filter(|name: Seq<char>| !current.contains(name))
}

/// What a mode matches in a diff. `current` are the names of all the checkpoints
/// that run, `base` the names that the registry held at the base, where they are
/// known.
pub open spec fn matched_by(
    mode: ModeModel,
    current: Seq<Seq<char>>,
    files: Seq<FileEntryModel>,
    added: Map<Seq<char>, Seq<Seq<char>>>,
    base: Option<Seq<Seq<char>>>,
) -> Seq<Seq<char>> {
    match mode {
        ModeModel::Path(patterns) => kept_paths(
            files,
            files.map_values(|f: FileEntryModel| any_finds(patterns, f.path)),
        ),
        ModeModel::Content { patterns, exempt } => kept_paths(
            files,
            files.map_values(|f: FileEntryModel| content_hit(patterns, exempt, added, f.path)),
        ),
        ModeModel::Semantic(SemanticKind::CheckpointRemoved) => match base {
            Some(names) if registry_touched(files) => removed(current, names),
            _ => Seq::empty(),
        },
    }
}

// ── What fires ───────────────────────────────────────────────────────────────

/// The checkpoints whose list of matches is not empty, in order, each with its
/// matches.
pub open spec fn fired_with(cps: Seq<CompiledModel>, matches: Seq<Seq<Seq<char>>>) -> Seq<
    FiredModel,
>
    decreases cps.len(),
{
    if cps.len() == 0 {
        Seq::empty()
    } else {
        let front = fired_with(cps.drop_last(), matches.drop_last());
        if matches.last().len() == 0 {
            front
        } else {
            front.push(
                FiredModel {
                    name: cps.last().name,
                    summary: cps.last().summary,
                    matched: matches.last(),
                },
            )
        }
    }
}

/// The names of the checkpoints, in order.
pub open spec fn current_names(cps: Seq<CompiledModel>) -> Seq<Seq<char>> {
    cps.map_values(|cp: CompiledModel| cp.name)
}

/// What each checkpoint matches.
pub open spec fn all_matches(
    cps: Seq<CompiledModel>,
    files: Seq<FileEntryModel>,
    added: Map<Seq<char>, Seq<Seq<char>>>,
    base: Option<Seq<Seq<char>>>,
) -> Seq<Seq<Seq<char>>> {
    cps.map_values(
        |cp: CompiledModel| matched_by(cp.mode, current_names(cps), files, added, base),
    )
}

/// What fires: one `Fired` for each checkpoint that matches something.
pub open spec fn detected(
    cps: Seq<CompiledModel>,
    files: Seq<FileEntryModel>,
    added: Map<Seq<char>, Seq<Seq<char>>>,
    base: Option<Seq<Seq<char>>>,
) -> Seq<FiredModel> {
    fired_with(cps, all_matches(cps, files, added, base))
}

/// Runs all the checkpoints against a diff.
///
/// - **Path** mode matches the files whose path some pattern matches.
/// - **Content** mode matches the files whose path no exemption matches and that
///   gained a line that some pattern matches.
/// - **`CheckpointRemoved`** matches the base names that no checkpoint has now, when
///   the base names are known and some changed path ends with `checkpoints.yaml`.
///
/// There is one `Fired` for each checkpoint that matches something.
pub fn detect(
    checkpoints: &[CompiledCheckpoint],
    files: &[FileEntry],
    added_lines: &AddedLines,
    base_checkpoint_names: Option<&[String]>,
) -> (r: Vec<Fired>)
    ensures
        r.deep_view() == detected(
            checkpoints.deep_view(),
            files.deep_view(),
            added_lines@,
            base_checkpoint_names.deep_view(),
        ),
{
    let ghost cps = checkpoints.deep_view();
    let ghost fs = files.deep_view();
    let ghost base = base_checkpoint_names.deep_view();
    let mut names: Vec<String> = Vec::new();
    let mut i: usize = 0;
    while i < checkpoints.len()
        invariant
            i <= checkpoints@.len(),
            names@.len() == i,
            forall|j: int| 0 <= j < i ==> (#[trigger] names@[j])@ == checkpoints@[j].name@,
        decreases checkpoints@.len() - i,
    {
        names.push(checkpoints[i].name.clone());
        i += 1;
    }
    assert(names.deep_view() =~= current_names(cps));
    let mut matches: Vec<Vec<String>> = Vec::new();
    let mut k: usize = 0;
    while k < checkpoints.len()
        invariant
            k <= checkpoints@.len(),
            cps == checkpoints.deep_view(),
            fs == files.deep_view(),
            base == base_checkpoint_names.deep_view(),
            names.deep_view() == current_names(cps),
            matches@.len() == k,
            forall|j: int|
                0 <= j < k ==> (#[trigger] matches@[j]).deep_view() == matched_by(
                    cps[j].mode,
                    current_names(cps),
                    fs,
                    added_lines@,
                    base,
                ),
        decreases checkpoints@.len() - k,
    {
        let matched = match_mode(
            &checkpoints[k].mode,
            &names,
            files,
            added_lines,
            base_checkpoint_names,
        );
        matches.push(matched);
        k += 1;
    }
    assert(matches.deep_view() =~= all_matches(cps, fs, added_lines@, base));
    collect_fired(checkpoints, &matches)
}

/// The fires out of what each checkpoint matched.
pub fn collect_fired(checkpoints: &[CompiledCheckpoint], matches: &Vec<Vec<String>>) -> (r: Vec<
    Fired,
>)
    requires
        matches@.len() == checkpoints@.len(),
    ensures
        r.deep_view() == fired_with(checkpoints.deep_view(), matches.deep_view()),
{
    let ghost cps = checkpoints.deep_view();
    let ghost ms = matches.deep_view();
    let mut out: Vec<Fired> = Vec::new();
    let mut i: usize = 0;
    assert(out.deep_view() =~= fired_with(cps.take(0), ms.take(0)));
    while i < checkpoints.len()
        invariant
            matches@.len() == checkpoints@.len(),
            cps == checkpoints.deep_view(),
            ms == matches.deep_view(),
            i <= checkpoints@.len(),
            out.deep_view() == fired_with(cps.take(i as int), ms.take(i as int)),
        decreases checkpoints@.len() - i,
    {
        let ghost before = out.deep_view();
        assert(cps.take(i + 1).drop_last() =~= cps.take(i as int));
        assert(ms.take(i + 1).drop_last() =~= ms.take(i as int));
        assert(ms[i as int].len() == matches[i as int]@.len());
        if matches[i].len() > 0 {
            let fired = Fired {
                name: checkpoints[i].name.clone(),
                summary: checkpoints[i].summary.clone(),
                matched: clone_texts(&matches[i]),
            };
            let ghost added = fired.deep_view();
            out.push(fired);
            assert(out.deep_view() =~= before.push(added));
        }
        i += 1;
    }
    assert(cps.take(cps.len() as int) =~= cps);
    assert(ms.take(ms.len() as int) =~= ms);
    out
}

/// What a mode matches in a diff.
fn match_mode(
    mode: &Mode,
    names: &Vec<String>,
    files: &[FileEntry],
    added_lines: &AddedLines,
    base_checkpoint_names: Option<&[String]>,
) -> (r: Vec<String>)
    ensures
        r.deep_view() == matched_by(
            mode.deep_view(),
            names.deep_view(),
            files.deep_view(),
            added_lines@,
            base_checkpoint_names.deep_view(),
        ),
{
    let ghost fs = files.deep_view();
    match mode {
        Mode::Path(patterns) => {
            let ghost ps = patterns.deep_view();
            let mut keep: Vec<bool> = Vec::new();
            let mut i: usize = 0;
            while i < files.len()
                invariant
                    fs == files.deep_view(),
                    ps == patterns.deep_view(),
                    i <= files@.len(),
                    keep@.len() == i,
                    forall|j: int| 0 <= j < i ==> #[trigger] keep@[j] == any_finds(ps, fs[j].path),
                decreases files@.len() - i,
            {
                keep.push(any_match(patterns, files[i].path.as_str()));
                i += 1;
            }
            assert(keep@ =~= fs.map_values(|f: FileEntryModel| any_finds(ps, f.path)));
            select_paths(files, &keep)
        },
        Mode::Content { patterns, exempt } => {
            let ghost ps = patterns.deep_view();
            let ghost es = exempt.deep_view();
            let mut keep: Vec<bool> = Vec::new();
            let mut i: usize = 0;
            while i < files.len()
                invariant
                    fs == files.deep_view(),
                    ps == patterns.deep_view(),
                    es == exempt.deep_view(),
                    i <= files@.len(),
                    keep@.len() == i,
                    forall|j: int|
                        0 <= j < i ==> #[trigger] keep@[j] == content_hit(
                            ps,
                            es,
                            added_lines@,
                            fs[j].path,
                        ),
                decreases files@.len() - i,
            {
                let path = files[i].path.as_str();
                let hit = if any_match(exempt, path) {
                    false
                } else {
                    match added_lines.get(path) {
                        Some(lines) => any_line_match(patterns, lines),
                        None => false,
                    }
                };
                keep.push(hit);
                i += 1;
            }
            assert(keep@ =~= fs.map_values(
                |f: FileEntryModel| content_hit(ps, es, added_lines@, f.path),
            ));
            select_paths(files, &keep)
        },
        Mode::Semantic(SemanticKind::CheckpointRemoved) => {
            match base_checkpoint_names {
                Some(base) => {
                    if touches_registry(files) {
                        removed_checkpoints(names, base)
                    } else {
                        let none: Vec<String> = Vec::new();
                        assert(none.deep_view() =~= Seq::empty());
                        none
                    }
                },
                None => {
                    let none: Vec<String> = Vec::new();
                    assert(none.deep_view() =~= Seq::empty());
                    none
                },
            }
        },
    }
}

/// Whether some of the patterns matches some of the lines.
fn any_line_match(patterns: &Vec<Pattern>, lines: &Vec<String>) -> (r: bool)
    ensures
        r == any_line_finds(patterns.deep_view(), lines.deep_view()),
{
    let ghost ps = patterns.deep_view();
    let ghost ls = lines.deep_view();
    let mut i: usize = 0;
    while i < lines.len()
        invariant
            ps == patterns.deep_view(),
            ls == lines.deep_view(),
            i <= lines@.len(),
            forall|j: int| 0 <= j < i ==> !any_finds(ps, #[trigger] ls[j]),
        decreases lines@.len() - i,
    {
        if any_match(patterns, lines[i].as_str()) {
            assert(any_finds(ps, ls[i as int]));
            return true;
        }
        i += 1;
    }
    false
}

/// The paths of the files whose flag is set, in order.
pub fn select_paths(files: &[FileEntry], keep: &Vec<bool>) -> (r: Vec<String>)
    requires
        keep@.len() == files@.len(),
    ensures
        r.deep_view() == kept_paths(files.deep_view(), keep@),
{
    let ghost fs = files.deep_view();
    let mut out: Vec<String> = Vec::new();
    let mut i: usize = 0;
    assert(out.deep_view() =~= kept_paths(fs.take(0), keep@.take(0)));
    while i < files.len()
        invariant
            keep@.len() == files@.len(),
            fs == files.deep_view(),
            i <= files@.len(),
            out.deep_view() == kept_paths(fs.take(i as int), keep@.take(i as int)),
        decreases files@.len() - i,
    {
        let ghost before = out.deep_view();
        assert(fs.take(i + 1).drop_last() =~= fs.take(i as int));
        assert(keep@.take(i + 1).drop_last() =~= keep@.take(i as int));
        if keep[i] {
            let path = files[i].path.clone();
            let ghost added = path@;
            out.push(path);
            assert(out.deep_view() =~= before.push(added));
        }
        i += 1;
    }
    assert(fs.take(fs.len() as int) =~= fs);
    assert(keep@.take(keep@.len() as int) =~= keep@);
    out
}

/// Whether some changed path ends with `checkpoints.yaml`.
pub fn touches_registry(files: &[FileEntry]) -> (r: bool)
    ensures
        r == registry_touched(files.deep_view()),
{
    let ghost fs = files.deep_view();
    let mut i: usize = 0;
    while i < files.len()
        invariant
            fs == files.deep_view(),
            i <= files@.len(),
            forall|j: int|
                0 <= j < i ==> !"checkpoints.yaml"@.is_suffix_of((#[trigger] fs[j]).path),
        decreases files@.len() - i,
    {
        if ends_with(files[i].path.as_str(), "checkpoints.yaml") {
            assert("checkpoints.yaml"@.is_suffix_of(fs[i as int].path));
            return true;
        }
        i += 1;
    }
    false
}

/// Whether `name` is among `names`.
pub fn has_text_among(names: &Vec<String>, name: &String) -> (r: bool)
    ensures
        r == names.deep_view().contains(name@),
{
    let ghost ns = names.deep_view();
    let mut i: usize = 0;
    while i < names.len()
        invariant
            ns == names.deep_view(),
            i <= names@.len(),
            forall|j: int| 0 <= j < i ==> #[trigger] ns[j] != name@,
        decreases names@.len() - i,
    {
        if names[i] == *name {
            assert(ns[i as int] == name@);
            return true;
        }
        i += 1;
    }
    false
}

/// The base names that are not among the current ones, in order.
pub fn removed_checkpoints(current: &Vec<String>, base: &[String]) -> (r: Vec<String>)
    ensures
        r.deep_view() == removed(current.deep_view(), base.deep_view()),
{
    let ghost cs = current.deep_view();
    let ghost bs = base.deep_view();
    let ghost gone = |name: Seq<char>| !cs.contains(name);
    let mut out: Vec<String> = Vec::new();
    let mut i: usize = 0;
    proof {
        reveal(Seq::filter);
        assert(out.deep_view() =~= bs.take(0).filter(gone));
    }
    while i < base.len()
        invariant
            cs == current.deep_view(),
            bs == base.deep_view(),
            gone == |name: Seq<char>| !cs.contains(name),
            i <= base@.len(),
            out.deep_view() == bs.take(i as int).filter(gone),
        decreases base@.len() - i,
    {
        let ghost before = out.deep_view();
        proof {
            reveal(Seq::filter);
            assert(bs.take(i + 1).drop_last() =~= bs.take(i as int));
            assert(bs.take(i + 1).last() == bs[i as int]);
        }
        if !has_text_among(current, &base[i]) {
            assert(gone(bs[i as int]));
            let name = base[i].clone();
            let ghost added = name@;
            out.push(name);
            assert(out.deep_view() =~= before.push(added));
        } else {
            assert(!gone(bs[i as int]));
        }
        i += 1;
    }
    assert(bs.take(bs.len() as int) =~= bs);
    out
}

} // verus!
