//! A run on a repository: from what was read to the verdict, failing open.

use vstd::prelude::*;

use crate::ack::message_acks;
use crate::anchor::{detect_anchored, guarded};
use crate::baseline::{base_names, ordered};
use crate::compiled::{compile, compiled, CompiledCheckpoint, CompiledModel};
use crate::git::DiffOutcome;
use crate::gitdiff::{added_lines, name_status_entries, parse_added_lines, parse_name_status};
use crate::registry::{
    load_checkpoints, merge, merged, source_names, Checkpoint, CheckpointErrorModel,
    CheckpointModel, FileRead, RegistrySource,
};
use crate::verdict::{judge_message, verdict_on, Verdict, VerdictModel};

verus! {

// ── Evaluating a diff ────────────────────────────────────────────────────────

/// The verdict on a commit: what fires in its diff, against its message.
pub open spec fn evaluated(
    cps: Seq<CompiledModel>,
    name_status: Seq<char>,
    diff: Seq<char>,
    base: Option<Seq<Seq<char>>>,
    commit_msg: Seq<char>,
) -> VerdictModel {
    verdict_on(
        guarded(cps, name_status_entries(name_status), added_lines(diff), base),
        message_acks(commit_msg),
    )
}

/// Evaluates a commit: its changed files, its diff and its message.
pub fn evaluate(
    checkpoints: &Vec<CompiledCheckpoint>,
    name_status: &str,
    diff: &str,
    base: &Option<Vec<String>>,
    commit_msg: &str,
) -> (r: Verdict)
    ensures
        r.deep_view() == evaluated(
            checkpoints.deep_view(),
            name_status@,
            diff@,
            base.deep_view(),
            commit_msg@,
        ),
{
    let entries = parse_name_status(name_status);
    let added = parse_added_lines(diff);
    let cps = checkpoints.as_slice();
    let files = entries.as_slice();
    assert(cps.deep_view() =~= checkpoints.deep_view());
    assert(files.deep_view() =~= entries.deep_view());
    let fired = match base {
        Some(names) => {
            let listed = names.as_slice();
            assert(listed.deep_view() =~= names.deep_view());
            detect_anchored(cps, files, &added, Some(listed))
        },
        None => detect_anchored(cps, files, &added, None),
    };
    judge_message(fired, commit_msg)
}

// ── A run ────────────────────────────────────────────────────────────────────

/// What a run has read.
pub struct RunInputs {
    pub global_path: String,
    /// Something lies at the global registry's path.
    pub global_exists: bool,
    pub global: FileRead,
    pub repo_path: String,
    pub repo: FileRead,
    /// `git diff --name-status`.
    pub name_status: DiffOutcome,
    /// `git diff --unified=0`.
    pub unified: DiffOutcome,
    /// The repository's registry as it stood at the base.
    pub base_registry: Option<RegistrySource>,
    pub commit_msg: String,
}

/// What a run comes to.
pub struct RunResult {
    /// Lines for standard error.
    pub diagnostics: Vec<String>,
    /// The verdict, unless the run ended before one.
    pub verdict: Option<Verdict>,
    pub exit_code: i32,
}

/// The mathematical value of a `RunResult`.
#[verifier::ext_equal]
pub struct RunResultModel {
    pub diagnostics: Seq<Seq<char>>,
    pub verdict: Option<VerdictModel>,
    pub exit_code: i32,
}

impl DeepView for RunResult {
    type V = RunResultModel;

    open spec fn deep_view(&self) -> RunResultModel {
        RunResultModel {
            diagnostics: self.diagnostics.deep_view(),
            verdict: self.verdict.deep_view(),
            exit_code: self.exit_code,
        }
    }
}

/// The checkpoints that a registry file gives: none when it cannot be used.
pub open spec fn usable_checkpoints(read: FileRead) -> Seq<CheckpointModel> {
    match read {
        FileRead::Read(source) => match source.parsed {
            Ok(cps) => cps.deep_view(),
            Err(_) => Seq::empty(),
        },
        _ => Seq::empty(),
    }
}

/// Why a registry file that is there cannot be used.
pub open spec fn unusable_reason(read: FileRead) -> Option<Seq<char>> {
    match read {
        FileRead::Absent => None,
        FileRead::Unreadable(why) => Some(why@),
        FileRead::Read(source) => match source.parsed {
            Ok(_) => None,
            Err(why) => Some(why@),
        },
    }
}

/// The line on a registry file that cannot be used, for this reason.
pub open spec fn load_line(path: Seq<char>, why: Seq<char>) -> Seq<char> {
    "commitward: registry load error (fail-open): "@ + path + ": "@ + CheckpointErrorModel::Parse(
        path,
        why,
    ).message()
}

/// What is said of a registry file that is there and cannot be used.
pub open spec fn load_diagnostics(path: Seq<char>, read: FileRead) -> Seq<Seq<char>> {
    match unusable_reason(read) {
        Some(why) => seq![load_line(path, why)],
        None => Seq::empty(),
    }
}

/// The line on a global registry that is not there.
pub open spec fn absent_line(path: Seq<char>) -> Seq<char> {
    "commitward: WARNING global checkpoint registry not found at "@ + path
        + " — global baseline INACTIVE (only repo-local overrides apply). Pass --registry or set COMMITWARD_REGISTRY. (fail-open: continuing)"@
}

/// What is said of a global registry that is not there.
pub open spec fn absent_diagnostics(path: Seq<char>, found: bool, read: FileRead) -> Seq<
    Seq<char>,
> {
    if !found || read is Absent {
        seq![absent_line(path)]
    } else {
        Seq::empty()
    }
}

/// What is said of the two registries.
pub open spec fn registry_diagnostics(inputs: RunInputs) -> Seq<Seq<char>> {
    absent_diagnostics(inputs.global_path@, inputs.global_exists, inputs.global) + load_diagnostics(
        inputs.global_path@,
        inputs.global,
    ) + load_diagnostics(inputs.repo_path@, inputs.repo)
}

/// What a diff printed: nothing when it did not come about.
pub open spec fn diff_text(outcome: DiffOutcome) -> Seq<char> {
    match outcome {
        DiffOutcome::Printed(text) => text@,
        _ => Seq::empty(),
    }
}

/// What is said of diffs that did not come about although the run goes on.
pub open spec fn diff_diagnostics(inputs: RunInputs) -> Seq<Seq<char>> {
    (if inputs.name_status is UnknownBase {
        seq!["commitward: unknown base revision (fail-open): nothing to compare"@]
    } else {
        Seq::empty()
    }) + (match inputs.unified {
        DiffOutcome::Failed(why) => seq![
            "commitward: git diff failed (fail-open): added lines not scanned: "@ + why@,
        ],
        DiffOutcome::UnknownBase if !(inputs.name_status is UnknownBase) => seq![
            "commitward: unknown base revision (fail-open): added lines not scanned"@,
        ],
        _ => Seq::empty(),
    })
}

/// The names of the repository's registry at the base, in order.
pub open spec fn base_of(source: Option<RegistrySource>) -> Seq<Seq<char>> {
    match source {
        Some(s) => ordered(source_names(s)),
        None => Seq::empty(),
    }
}

/// What a run comes to.
///
/// A registry that is absent or cannot be used counts as empty. One that does not
/// compile, and a diff that fails, end the run with exit code 0, before the anchor is
/// asked: what is broken never blocks. Otherwise the exit code is the class of the
/// verdict.
pub open spec fn run_result(inputs: RunInputs) -> RunResultModel {
    let said = registry_diagnostics(inputs);
    match compiled(merged(usable_checkpoints(inputs.global), usable_checkpoints(inputs.repo))) {
        Err(e) => RunResultModel {
            diagnostics: said.push(
                "commitward: registry compile error (fail-open): "@ + e.message(),
            ),
            verdict: None,
            exit_code: 0,
        },
        Ok(cps) => match inputs.name_status {
            DiffOutcome::Failed(why) => RunResultModel {
                diagnostics: said.push("commitward: git diff failed (fail-open): "@ + why@),
                verdict: None,
                exit_code: 0,
            },
            _ => {
                let verdict = evaluated(
                    cps,
                    diff_text(inputs.name_status),
                    diff_text(inputs.unified),
                    Some(base_of(inputs.base_registry)),
                    inputs.commit_msg@,
                );
                RunResultModel {
                    diagnostics: said + diff_diagnostics(inputs),
                    verdict: Some(verdict),
                    exit_code: verdict.exit_class,
                }
            },
        },
    }
}

/// Appends a line.
fn say(lines: &mut Vec<String>, line: String)
    ensures
        final(lines).deep_view() == old(lines).deep_view().push(line@),
{
    let ghost before = lines.deep_view();
    let ghost text = line@;
    lines.push(line);
    assert(lines.deep_view() =~= before.push(text));
}

/// The checkpoints of a registry file, saying why when it cannot be used.
fn load_or_say(path: &String, read: FileRead, said: &mut Vec<String>) -> (r: Vec<Checkpoint>)
    ensures
        r.deep_view() == usable_checkpoints(read),
        final(said).deep_view() == old(said).deep_view() + load_diagnostics(path@, read),
{
    let ghost before = said.deep_view();
    match load_checkpoints(path.as_str(), read) {
        Ok(cps) => {
            assert(said.deep_view() =~= before + load_diagnostics(path@, read));
            assert(cps.deep_view() =~= usable_checkpoints(read));
            cps
        },
        Err(e) => {
            let line = "commitward: registry load error (fail-open): ".to_owned().concat(
                path.as_str(),
            ).concat(": ").concat(e.message().as_str());
            say(said, line);
            let none: Vec<Checkpoint> = Vec::new();
            assert(said.deep_view() =~= before + load_diagnostics(path@, read));
            assert(none.deep_view() =~= Seq::empty());
            none
        },
    }
}

/// What a diff printed: nothing when it did not come about.
fn text_of(outcome: &DiffOutcome) -> (r: String)
    ensures
        r@ == diff_text(*outcome),
{
    match outcome {
        DiffOutcome::Printed(text) => text.clone(),
        _ => String::new(),
    }
}

/// Carries a run through.
pub fn run(inputs: RunInputs) -> (r: RunResult)
    ensures
        r.deep_view() == run_result(inputs),
{
    let ghost start = inputs;
    let mut said: Vec<String> = Vec::new();
    assert(said.deep_view() =~= Seq::empty());
    let absent = match &inputs.global {
        FileRead::Absent => true,
        _ => false,
    };
    if !inputs.global_exists || absent {
        say(
            &mut said,
            "commitward: WARNING global checkpoint registry not found at ".to_owned().concat(
                inputs.global_path.as_str(),
            ).concat(
                " — global baseline INACTIVE (only repo-local overrides apply). Pass --registry or set COMMITWARD_REGISTRY. (fail-open: continuing)",
            ),
        );
    }
    assert(said.deep_view() =~= absent_diagnostics(
        start.global_path@,
        start.global_exists,
        start.global,
    ));
    let global = load_or_say(&inputs.global_path, inputs.global, &mut said);
    let repo = load_or_say(&inputs.repo_path, inputs.repo, &mut said);
    assert(said.deep_view() == registry_diagnostics(start));
    let checkpoints = match compile(merge(global, repo)) {
        Ok(cps) => cps,
        Err(e) => {
            say(
                &mut said,
                "commitward: registry compile error (fail-open): ".to_owned().concat(
                    e.message().as_str(),
                ),
            );
            return RunResult { diagnostics: said, verdict: None, exit_code: 0 };
        },
    };
    if let DiffOutcome::Failed(why) = &inputs.name_status {
        say(
            &mut said,
            "commitward: git diff failed (fail-open): ".to_owned().concat(why.as_str()),
        );
        return RunResult { diagnostics: said, verdict: None, exit_code: 0 };
    }
    let ghost before = said.deep_view();
    let no_base = match &inputs.name_status {
        DiffOutcome::UnknownBase => true,
        _ => false,
    };
    if no_base {
        say(
            &mut said,
            "commitward: unknown base revision (fail-open): nothing to compare".to_owned(),
        );
    }
    match &inputs.unified {
        DiffOutcome::Failed(why) => say(
            &mut said,
            "commitward: git diff failed (fail-open): added lines not scanned: ".to_owned().concat(
                why.as_str(),
            ),
        ),
        DiffOutcome::UnknownBase => {
            if !no_base {
                say(
                    &mut said,
                    "commitward: unknown base revision (fail-open): added lines not scanned".to_owned(),
                );
            }
        },
        DiffOutcome::Printed(_) => {},
    }
    assert(said.deep_view() =~= before + diff_diagnostics(start));
    let base = match base_names(&inputs.base_registry, &None) {
        Some(names) => names,
        None => Vec::new(),
    };
    assert(base.deep_view() =~= base_of(start.base_registry));
    let verdict = evaluate(
        &checkpoints,
        text_of(&inputs.name_status).as_str(),
        text_of(&inputs.unified).as_str(),
        &Some(base),
        inputs.commit_msg.as_str(),
    );
    let class: i32 = verdict.exit_class;
    RunResult { diagnostics: said, verdict: Some(verdict), exit_code: class }
}

} // verus!
