//! The git commands of commitward, and what their outcomes mean.

use vstd::prelude::*;

use crate::text::{contains_text, has_text, trim, trimmed};

verus! {

/// What a `git diff` is asked to print.
#[derive(Debug, Clone, Copy, PartialEq, Eq, Structural)]
pub enum DiffMode {
    /// The changed files.
    NameStatus,
    /// The changed lines, without context.
    Unified,
}

/// The flag of a diff mode.
pub open spec fn mode_flag(mode: DiffMode) -> Seq<char> {
    match mode {
        DiffMode::NameStatus => "--name-status"@,
        DiffMode::Unified => "--unified=0"@,
    }
}

/// The flag of a diff mode.
fn flag_of(mode: DiffMode) -> (r: &'static str)
    ensures
        r@ == mode_flag(mode),
{
    match mode {
        DiffMode::NameStatus => "--name-status",
        DiffMode::Unified => "--unified=0",
    }
}

/// The arguments of `git diff`: against `HEAD` from a base, or of the staged index.
/// Paths come unquoted, and a rename as a deletion and an addition, so that a guard
/// on the old path still fires.
pub open spec fn diff_command(base: Option<Seq<char>>, mode: DiffMode) -> Seq<Seq<char>> {
    seq![
        "-c"@,
        "core.quotePath=false"@,
        "diff"@,
        mode_flag(mode),
        "--diff-filter=ACDMRT"@,
        "--no-renames"@,
        match base {
            Some(b) => b + "..HEAD"@,
            None => "--cached"@,
        },
    ]
}

/// The arguments of `git diff`.
pub fn diff_args(base: Option<&str>, mode: DiffMode) -> (r: Vec<String>)
    ensures
        r.deep_view() == diff_command(base.deep_view(), mode),
{
    let range = match base {
        Some(b) => b.to_owned().concat("..HEAD"),
        None => "--cached".to_owned(),
    };
    let mut args: Vec<String> = Vec::new();
    args.push("-c".to_owned());
    args.push("core.quotePath=false".to_owned());
    args.push("diff".to_owned());
    args.push(flag_of(mode).to_owned());
    args.push("--diff-filter=ACDMRT".to_owned());
    args.push("--no-renames".to_owned());
    args.push(range);
    assert(args.deep_view() =~= diff_command(base.deep_view(), mode));
    args
}

/// The arguments of `git show` for a file as it stood at a revision.
pub fn show_args(revision: &str, path: &str) -> (r: Vec<String>)
    ensures
        r.deep_view() == seq!["show"@, revision@ + ":"@ + path@],
{
    let mut args: Vec<String> = Vec::new();
    args.push("show".to_owned());
    args.push(revision.to_owned().concat(":").concat(path));
    assert(args.deep_view() =~= seq!["show"@, revision@ + ":"@ + path@]);
    args
}

/// The arguments of `git log` for the messages of the commits since a base.
pub fn log_args(base: &str) -> (r: Vec<String>)
    ensures
        r.deep_view() == seq!["log"@, "--format=%B"@, base@ + "..HEAD"@],
{
    let mut args: Vec<String> = Vec::new();
    args.push("log".to_owned());
    args.push("--format=%B".to_owned());
    args.push(base.to_owned().concat("..HEAD"));
    assert(args.deep_view() =~= seq!["log"@, "--format=%B"@, base@ + "..HEAD"@]);
    args
}

/// The outcome of a `git diff`.
#[derive(Debug)]
pub enum DiffOutcome {
    /// What it printed.
    Printed(String),
    /// Git does not know the base.
    UnknownBase,
    /// It failed, for this reason.
    Failed(String),
}

/// The error output says that git does not know a revision.
pub open spec fn says_unknown_revision(stderr: Seq<char>) -> bool {
    contains_text(stderr, "unknown revision"@) || contains_text(stderr, "bad revision"@)
}

/// What the end of a `git diff` means.
pub fn diff_outcome(mode: DiffMode, success: bool, stdout: String, stderr: &str) -> (r: DiffOutcome)
    ensures
        match r {
            DiffOutcome::Printed(out) => success && out@ == stdout@,
            DiffOutcome::UnknownBase => !success && says_unknown_revision(stderr@),
            DiffOutcome::Failed(why) => {
                &&& !success
                &&& !says_unknown_revision(stderr@)
                &&& why@ == "git diff "@ + mode_flag(mode) + " failed: "@ + trim(stderr@)
            },
        },
{
    if success {
        DiffOutcome::Printed(stdout)
    } else if has_text(stderr, "unknown revision") || has_text(stderr, "bad revision") {
        DiffOutcome::UnknownBase
    } else {
        DiffOutcome::Failed(
            "git diff ".to_owned().concat(flag_of(mode)).concat(" failed: ").concat(
                trimmed(stderr).as_str(),
            ),
        )
    }
}

/// The root of the work tree, out of what `git rev-parse --show-toplevel` printed:
/// none when the command failed or printed nothing but white space.
pub fn toplevel(success: bool, stdout: &str) -> (r: Option<String>)
    ensures
        match r {
            Some(root) => success && trim(stdout@).len() > 0 && root@ == trim(stdout@),
            None => !success || trim(stdout@).len() == 0,
        },
{
    if !success {
        return None;
    }
    let root = trimmed(stdout);
    if root.as_str().is_empty() {
        None
    } else {
        Some(root)
    }
}

/// What a command printed, if it succeeded.
pub fn printed(success: bool, stdout: String) -> (r: Option<String>)
    ensures
        r == (if success {
            Some(stdout)
        } else {
            None
        }),
{
    if success {
        Some(stdout)
    } else {
        None
    }
}

} // verus!
