//! The anchor: a check of commitward's own files that no registry holds, so that none
//! can leave it out.

use vstd::prelude::*;

use crate::compiled::{CompiledCheckpoint, CompiledModel};
use crate::detect::{detect, detected, kept_paths, select_paths, Fired, FiredModel};
use crate::gitdiff::{AddedLines, FileEntry, FileEntryModel};
use crate::text::{ends_with, same_text};

verus! {

/// The name under which the anchor fires.
pub const ANCHOR_NAME: &'static str = "anchor-gate-integrity";

/// What the anchor says when it fires.
pub const ANCHOR_SUMMARY: &'static str = "Commitward's own files changed";

/// The files that commitward consists of: its registries, and the hook that runs it,
/// in the root or in some directory.
pub open spec fn gate_file(path: Seq<char>) -> bool {
    ||| path == "checkpoints.yaml"@
    ||| "/checkpoints.yaml"@.is_suffix_of(path)
    ||| path == ".git-hooks/commit-msg"@
    ||| "/.git-hooks/commit-msg"@.is_suffix_of(path)
}

/// Whether `path` is one of commitward's own files.
pub fn is_gate_file(path: &str) -> (r: bool)
    ensures
        r == gate_file(path@),
{
    same_text(path, "checkpoints.yaml") || ends_with(path, "/checkpoints.yaml") || same_text(
        path,
        ".git-hooks/commit-msg",
    ) || ends_with(path, "/.git-hooks/commit-msg")
}

/// The changed paths that are commitward's own.
pub open spec fn gate_paths(files: Seq<FileEntryModel>) -> Seq<Seq<char>> {
    kept_paths(files, files.map_values(|f: FileEntryModel| gate_file(f.path)))
}

/// What the anchor says of a diff.
pub open spec fn anchor_fired(files: Seq<FileEntryModel>) -> Option<FiredModel> {
    if gate_paths(files).len() == 0 {
        None
    } else {
        Some(
            FiredModel {
                name: ANCHOR_NAME@,
                summary: ANCHOR_SUMMARY@,
                matched: gate_paths(files),
            },
        )
    }
}

/// The anchor: fires when a changed file is one of commitward's own.
pub fn anchor_fire(files: &[FileEntry]) -> (r: Option<Fired>)
    ensures
        r.deep_view() == anchor_fired(files.deep_view()),
{
    let ghost fs = files.deep_view();
    let mut keep: Vec<bool> = Vec::new();
    let mut i: usize = 0;
    while i < files.len()
        invariant
            fs == files.deep_view(),
            i <= files@.len(),
            keep@.len() == i,
            forall|j: int| 0 <= j < i ==> #[trigger] keep@[j] == gate_file(fs[j].path),
        decreases files@.len() - i,
    {
        keep.push(is_gate_file(files[i].path.as_str()));
        i += 1;
    }
    assert(keep@ =~= fs.map_values(|f: FileEntryModel| gate_file(f.path)));
    let matched = select_paths(files, &keep);
    assert(matched@.len() == gate_paths(fs).len());
    if matched.len() == 0 {
        None
    } else {
        Some(
            Fired { name: ANCHOR_NAME.to_owned(), summary: ANCHOR_SUMMARY.to_owned(), matched },
        )
    }
}

/// What fires in a diff: the checkpoints, then the anchor.
pub open spec fn guarded(
    cps: Seq<CompiledModel>,
    files: Seq<FileEntryModel>,
    added: Map<Seq<char>, Seq<Seq<char>>>,
    base: Option<Seq<Seq<char>>>,
) -> Seq<FiredModel> {
    let fired = detected(cps, files, added, base);
    match anchor_fired(files) {
        Some(anchor) => fired.push(anchor),
        None => fired,
    }
}

/// Runs all the checkpoints, and the anchor, against a diff.
pub fn detect_anchored(
    checkpoints: &[CompiledCheckpoint],
    files: &[FileEntry],
    added_lines: &AddedLines,
    base_checkpoint_names: Option<&[String]>,
) -> (r: Vec<Fired>)
    ensures
        r.deep_view() == guarded(
            checkpoints.deep_view(),
            files.deep_view(),
            added_lines@,
            base_checkpoint_names.deep_view(),
        ),
{
    let mut fired = detect(checkpoints, files, added_lines, base_checkpoint_names);
    let ghost before = fired.deep_view();
    if let Some(anchor) = anchor_fire(files) {
        let ghost added = anchor.deep_view();
        fired.push(anchor);
        assert(fired.deep_view() =~= before.push(added));
    }
    fired
}

} // verus!
