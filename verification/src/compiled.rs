//! Compiling checkpoints: the one mode that each declares, with its patterns built.

use vstd::prelude::*;

use crate::pattern::{compile_ci, compiles, pattern_error, Pattern};
use crate::registry::{Checkpoint, CheckpointError, CheckpointErrorModel, CheckpointModel};
use crate::text::same_text;

verus! {

/// The code-driven checks.
#[derive(Debug, Clone, Copy, PartialEq, Eq, Structural)]
pub enum SemanticKind {
    /// A checkpoint that the registry held at the base is gone.
    CheckpointRemoved,
}

/// How a checkpoint matches.
pub enum Mode {
    /// Some pattern matches the path of a changed file.
    Path(Vec<Pattern>),
    /// Some pattern matches an added line of a file whose path no `exempt` pattern
    /// matches.
    Content { patterns: Vec<Pattern>, exempt: Vec<Pattern> },
    /// A code-driven check.
    Semantic(SemanticKind),
}

/// The mathematical value of a `Mode`: its patterns as their sources.
#[verifier::ext_equal]
pub enum ModeModel {
    Path(Seq<Seq<char>>),
    Content { patterns: Seq<Seq<char>>, exempt: Seq<Seq<char>> },
    Semantic(SemanticKind),
}

impl DeepView for Mode {
    type V = ModeModel;

    open spec fn deep_view(&self) -> ModeModel {
        match self {
            Mode::Path(patterns) => ModeModel::Path(patterns.deep_view()),
            Mode::Content { patterns, exempt } => ModeModel::Content {
                patterns: patterns.deep_view(),
                exempt: exempt.deep_view(),
            },
            Mode::Semantic(kind) => ModeModel::Semantic(*kind),
        }
    }
}

/// A checkpoint with its mode resolved and all its patterns compiled.
pub struct CompiledCheckpoint {
    pub name: String,
    pub summary: String,
    pub standards_doc: Option<String>,
    pub mode: Mode,
}

/// The mathematical value of a `CompiledCheckpoint`.
#[verifier::ext_equal]
pub struct CompiledModel {
    pub name: Seq<char>,
    pub summary: Seq<char>,
    pub standards_doc: Option<Seq<char>>,
    pub mode: ModeModel,
}

impl DeepView for CompiledCheckpoint {
    type V = CompiledModel;

    open spec fn deep_view(&self) -> CompiledModel {
        CompiledModel {
            name: self.name@,
            summary: self.summary@,
            standards_doc: self.standards_doc.deep_view(),
            mode: self.mode.deep_view(),
        }
    }
}

// ── The declared mode ────────────────────────────────────────────────────────

/// How many of `paths`, `content` and `semantic` a checkpoint sets.
pub open spec fn mode_count(cp: CheckpointModel) -> int {
    (if cp.paths.len() > 0 {
        1int
    } else {
        0
    }) + (if cp.content.len() > 0 {
        1int
    } else {
        0
    }) + (if cp.semantic is Some {
        1int
    } else {
        0
    })
}

/// The mode that a checkpoint declares, its patterns as written; an error when it
/// does not set exactly one, or asks for a semantic check that does not exist.
pub open spec fn declared_mode(cp: CheckpointModel) -> Result<ModeModel, CheckpointErrorModel> {
    if mode_count(cp) != 1 {
        Err(CheckpointErrorModel::AmbiguousMode(cp.name))
    } else if cp.paths.len() > 0 {
        Ok(ModeModel::Path(cp.paths))
    } else if cp.content.len() > 0 {
        Ok(ModeModel::Content { patterns: cp.content, exempt: cp.content_exempt_paths })
    } else if cp.semantic == Some("checkpoint_removed"@) {
        Ok(ModeModel::Semantic(SemanticKind::CheckpointRemoved))
    } else {
        Err(CheckpointErrorModel::UnknownSemantic(cp.name, cp.semantic->Some_0))
    }
}

/// A declared mode, its patterns not compiled yet.
pub enum DeclaredMode<'a> {
    Path(&'a Vec<String>),
    Content { patterns: &'a Vec<String>, exempt: &'a Vec<String> },
    Semantic(SemanticKind),
}

impl<'a> DeepView for DeclaredMode<'a> {
    type V = ModeModel;

    open spec fn deep_view(&self) -> ModeModel {
        match self {
            DeclaredMode::Path(patterns) => ModeModel::Path(patterns.deep_view()),
            DeclaredMode::Content { patterns, exempt } => ModeModel::Content {
                patterns: patterns.deep_view(),
                exempt: exempt.deep_view(),
            },
            DeclaredMode::Semantic(kind) => ModeModel::Semantic(*kind),
        }
    }
}

/// The mode that a checkpoint declares.
pub fn resolve_mode<'a>(cp: &'a Checkpoint) -> (r: Result<DeclaredMode<'a>, CheckpointError>)
    ensures
        match r {
            Ok(mode) => declared_mode(cp.deep_view()) == Ok::<ModeModel, CheckpointErrorModel>(
                mode.deep_view(),
            ),
            Err(e) => declared_mode(cp.deep_view()) == Err::<ModeModel, CheckpointErrorModel>(
                e.deep_view(),
            ),
        },
{
    let has_paths = cp.paths.len() > 0;
    let has_content = cp.content.len() > 0;
    let has_semantic = cp.semantic.is_some();
    let exactly_one = (has_paths && !has_content && !has_semantic) || (!has_paths && has_content
        && !has_semantic) || (!has_paths && !has_content && has_semantic);
    if !exactly_one {
        return Err(CheckpointError::AmbiguousMode(cp.name.clone()));
    }
    if has_paths {
        return Ok(DeclaredMode::Path(&cp.paths));
    }
    if has_content {
        return Ok(
            DeclaredMode::Content { patterns: &cp.content, exempt: &cp.content_exempt_paths },
        );
    }
    match &cp.semantic {
        Some(semantic) => {
            if same_text(semantic.as_str(), "checkpoint_removed") {
                Ok(DeclaredMode::Semantic(SemanticKind::CheckpointRemoved))
            } else {
                Err(CheckpointError::UnknownSemantic(cp.name.clone(), semantic.clone()))
            }
        },
        None => Err(CheckpointError::AmbiguousMode(cp.name.clone())),
    }
}

// ── Patterns ─────────────────────────────────────────────────────────────────

/// The first of the patterns that does not compile.
pub open spec fn first_bad(patterns: Seq<Seq<char>>) -> Option<Seq<char>>
    decreases patterns.len(),
{
    if patterns.len() == 0 {
        None
    } else {
        match first_bad(patterns.drop_last()) {
            Some(p) => Some(p),
            None => if compiles(patterns.last()) {
                None
            } else {
                Some(patterns.last())
            },
        }
    }
}

/// The patterns of a checkpoint out of the outcomes of compiling each: all of them,
/// in order, or the error of the first that failed.
pub fn gather_patterns(
    checkpoint_name: &str,
    outcomes: Vec<Result<Pattern, String>>,
) -> (r: Result<Vec<Pattern>, CheckpointError>)
    ensures
        match r {
            Ok(patterns) => {
                &&& patterns@.len() == outcomes@.len()
                &&& forall|i: int|
                    0 <= i < outcomes@.len() ==> #[trigger] outcomes@[i] == Ok::<Pattern, String>(
                        patterns@[i],
                    )
            },
            Err(e) => exists|i: int|
                {
                    &&& 0 <= i < outcomes@.len()
                    &&& (#[trigger] outcomes@[i]) is Err
                    &&& forall|j: int| 0 <= j < i ==> (#[trigger] outcomes@[j]) is Ok
                    &&& e.deep_view() == CheckpointErrorModel::Regex(
                        checkpoint_name@,
                        outcomes@[i]->Err_0@,
                    )
                },
        },
{
    let ghost all = outcomes@;
    let mut patterns: Vec<Pattern> = Vec::new();
    for outcome in it: outcomes
        invariant
            it.seq() == all,
            patterns@.len() == it.index(),
            forall|i: int|
                0 <= i < it.index() ==> #[trigger] all[i] == Ok::<Pattern, String>(patterns@[i]),
    {
        assert(outcome == all[it.index()]);
        match outcome {
            Ok(p) => {
                patterns.push(p);
            },
            Err(why) => {
                assert(all[it.index()] is Err);
                return Err(CheckpointError::Regex(checkpoint_name.to_owned(), why));
            },
        }
    }
    Ok(patterns)
}

/// Compiles the patterns of a checkpoint.
pub fn compile_patterns(checkpoint_name: &str, patterns: &Vec<String>) -> (r: Result<
    Vec<Pattern>,
    CheckpointError,
>)
    ensures
        match r {
            Ok(ps) => first_bad(patterns.deep_view()) is None && ps.deep_view()
                == patterns.deep_view(),
            Err(e) => {
                &&& first_bad(patterns.deep_view()) is Some
                &&& e.deep_view() == CheckpointErrorModel::Regex(
                    checkpoint_name@,
                    pattern_error(first_bad(patterns.deep_view())->Some_0),
                )
            },
        },
{
    let ghost sources = patterns.deep_view();
    let mut outcomes: Vec<Result<Pattern, String>> = Vec::new();
    let mut i: usize = 0;
    while i < patterns.len()
        invariant
            sources == patterns.deep_view(),
            i <= patterns@.len(),
            outcomes@.len() == i,
            forall|j: int|
                0 <= j < i ==> match #[trigger] outcomes@[j] {
                    Ok(p) => compiles(sources[j]) && p@ == sources[j],
                    Err(e) => !compiles(sources[j]) && e@ == pattern_error(sources[j]),
                },
        decreases patterns@.len() - i,
    {
        outcomes.push(compile_ci(patterns[i].as_str()));
        i += 1;
    }
    let ghost made = outcomes@;
    let r = gather_patterns(checkpoint_name, outcomes);
    proof {
        match &r {
            Ok(ps) => {
                assert forall|j: int| 0 <= j < sources.len() implies compiles(
                    #[trigger] sources[j],
                ) && ps@[j]@ == sources[j] by {
                    assert(made[j] == Ok::<Pattern, String>(ps@[j]));
                }
                lemma_no_bad(sources);
                assert(ps.deep_view() =~= sources);
            },
            Err(_) => {
                let k = choose|k: int|
                    {
                        &&& 0 <= k < made.len()
                        &&& (#[trigger] made[k]) is Err
                        &&& forall|j: int| 0 <= j < k ==> (#[trigger] made[j]) is Ok
                        &&& r->Err_0.deep_view() == CheckpointErrorModel::Regex(
                            checkpoint_name@,
                            made[k]->Err_0@,
                        )
                    };
                assert forall|j: int| 0 <= j < k implies compiles(#[trigger] sources[j]) by {
                    assert(made[j] is Ok);
                }
                lemma_first_bad(sources, k);
            },
        }
    }
    r
}

/// When every pattern compiles, none is the first that does not.
pub proof fn lemma_no_bad(patterns: Seq<Seq<char>>)
    requires
        forall|j: int| 0 <= j < patterns.len() ==> compiles(#[trigger] patterns[j]),
    ensures
        first_bad(patterns) is None,
    decreases patterns.len(),
{
    if patterns.len() > 0 {
        assert(compiles(patterns[patterns.len() - 1]));
        lemma_no_bad(patterns.drop_last());
    }
}

/// A pattern that does not compile after some that do is the first.
pub proof fn lemma_first_bad(patterns: Seq<Seq<char>>, k: int)
    requires
        0 <= k < patterns.len(),
        !compiles(patterns[k]),
        forall|j: int| 0 <= j < k ==> compiles(#[trigger] patterns[j]),
    ensures
        first_bad(patterns) == Some(patterns[k]),
    decreases patterns.len(),
{
    if k == patterns.len() - 1 {
        lemma_no_bad(patterns.drop_last());
    } else {
        lemma_first_bad(patterns.drop_last(), k);
    }
}

// ── Checkpoints ──────────────────────────────────────────────────────────────

/// The error of a mode's first pattern that does not compile; of a content mode its
/// patterns come before its exemptions.
pub open spec fn mode_error(name: Seq<char>, mode: ModeModel) -> Option<CheckpointErrorModel> {
    let bad = match mode {
        ModeModel::Path(patterns) => first_bad(patterns),
        ModeModel::Content { patterns, exempt } => match first_bad(patterns) {
            Some(p) => Some(p),
            None => first_bad(exempt),
        },
        ModeModel::Semantic(_) => None,
    };
    match bad {
        Some(p) => Some(CheckpointErrorModel::Regex(name, pattern_error(p))),
        None => None,
    }
}

/// What one checkpoint compiles to.
pub open spec fn compiled_one(cp: CheckpointModel) -> Result<CompiledModel, CheckpointErrorModel> {
    match declared_mode(cp) {
        Err(e) => Err(e),
        Ok(mode) => match mode_error(cp.name, mode) {
            Some(e) => Err(e),
            None => Ok(
                CompiledModel {
                    name: cp.name,
                    summary: cp.summary,
                    standards_doc: cp.standards_doc,
                    mode,
                },
            ),
        },
    }
}

/// What a list of checkpoints compiles to: each of them, in order, or the error of
/// the first that does not compile.
pub open spec fn compiled(cps: Seq<CheckpointModel>) -> Result<
    Seq<CompiledModel>,
    CheckpointErrorModel,
>
    decreases cps.len(),
{
    if cps.len() == 0 {
        Ok(Seq::empty())
    } else {
        match compiled(cps.drop_last()) {
            Err(e) => Err(e),
            Ok(done) => match compiled_one(cps.last()) {
                Err(e) => Err(e),
                Ok(cp) => Ok(done.push(cp)),
            },
        }
    }
}

/// Compiles one checkpoint.
fn compile_one(cp: Checkpoint) -> (r: Result<CompiledCheckpoint, CheckpointError>)
    ensures
        match r {
            Ok(c) => compiled_one(cp.deep_view()) == Ok::<CompiledModel, CheckpointErrorModel>(
                c.deep_view(),
            ),
            Err(e) => compiled_one(cp.deep_view()) == Err::<CompiledModel, CheckpointErrorModel>(
                e.deep_view(),
            ),
        },
{
    let resolved = match resolve_mode(&cp) {
        Ok(DeclaredMode::Path(patterns)) => {
            match compile_patterns(cp.name.as_str(), patterns) {
                Ok(patterns) => Ok(Mode::Path(patterns)),
                Err(e) => Err(e),
            }
        },
        Ok(DeclaredMode::Content { patterns, exempt }) => {
            match compile_patterns(cp.name.as_str(), patterns) {
                Ok(patterns) => match compile_patterns(cp.name.as_str(), exempt) {
                    Ok(exempt) => Ok(Mode::Content { patterns, exempt }),
                    Err(e) => Err(e),
                },
                Err(e) => Err(e),
            }
        },
        Ok(DeclaredMode::Semantic(kind)) => Ok(Mode::Semantic(kind)),
        Err(e) => Err(e),
    };
    match resolved {
        Ok(mode) => Ok(
            CompiledCheckpoint {
                name: cp.name,
                summary: cp.summary,
                standards_doc: cp.standards_doc,
                mode,
            },
        ),
        Err(e) => Err(e),
    }
}

/// Compiles checkpoints.
///
/// Each must declare exactly one of `paths`, `content` and `semantic`. Patterns are
/// case-insensitive and unanchored.
pub fn compile(cps: Vec<Checkpoint>) -> (r: Result<Vec<CompiledCheckpoint>, CheckpointError>)
    ensures
        match r {
            Ok(done) => compiled(cps.deep_view()) == Ok::<Seq<CompiledModel>, CheckpointErrorModel>(
                done.deep_view(),
            ),
            Err(e) => compiled(cps.deep_view()) == Err::<Seq<CompiledModel>, CheckpointErrorModel>(
                e.deep_view(),
            ),
        },
{
    let ghost all = cps.deep_view();
    let ghost raw = cps@;
    let mut out: Vec<CompiledCheckpoint> = Vec::new();
    assert(out.deep_view() =~= Seq::empty());
    assert(all.take(0) =~= Seq::empty());
    for cp in it: cps
        invariant
            it.seq() == raw,
            all == cps.deep_view(),
            all.len() == raw.len(),
            forall|i: int| 0 <= i < raw.len() ==> all[i] == (#[trigger] raw[i]).deep_view(),
            compiled(all.take(it.index())) == Ok::<Seq<CompiledModel>, CheckpointErrorModel>(
                out.deep_view(),
            ),
    {
        let ghost i = it.index();
        let ghost before = out.deep_view();
        proof {
            assert(cp == raw[i]);
            assert(all.take(i + 1).drop_last() =~= all.take(i));
            assert(all.take(i + 1).last() == all[i]);
        }
        match compile_one(cp) {
            Ok(c) => {
                let ghost added = c.deep_view();
                out.push(c);
                assert(out.deep_view() =~= before.push(added));
            },
            Err(e) => {
                proof {
                    lemma_compiled_error_stays(all, i + 1);
                }
                return Err(e);
            },
        }
    }
    assert(all.take(all.len() as int) =~= all);
    Ok(out)
}

/// An error found among the first checkpoints is the error of all of them.
proof fn lemma_compiled_error_stays(cps: Seq<CheckpointModel>, n: int)
    requires
        0 <= n <= cps.len(),
        compiled(cps.take(n)) is Err,
    ensures
        compiled(cps) == compiled(cps.take(n)),
    decreases cps.len() - n,
{
    if n == cps.len() {
        assert(cps.take(n) =~= cps);
    } else {
        assert(cps.take(n + 1).drop_last() =~= cps.take(n));
        lemma_compiled_error_stays(cps, n + 1);
    }
}

} // verus!
