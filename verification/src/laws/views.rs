//! That the mathematical values leave nothing out of what they stand for.

use vstd::prelude::*;

use crate::ack::Ack;
use crate::cli::{Invocation, InvocationModel, Options};
use crate::compiled::{CompiledCheckpoint, DeclaredMode, Mode, ModeModel};
use crate::detect::Fired;
use crate::gate::{GateBody, GateReply, GateReplyModel};
use crate::gitdiff::FileEntry;
use crate::pattern::Pattern;
use crate::registry::{Checkpoint, CheckpointError, CheckpointErrorModel};
use crate::run::RunResult;
use crate::verdict::Verdict;

verus! {

/// The model lists the texts, one for one.
pub open spec fn lists(model: Seq<Seq<char>>, texts: Seq<String>) -> bool {
    &&& model.len() == texts.len()
    &&& forall|i: int| 0 <= i < texts.len() ==> #[trigger] model[i] == texts[i]@
}

/// The model holds the optional text.
pub open spec fn holds(model: Option<Seq<char>>, text: Option<String>) -> bool {
    match text {
        Some(t) => model == Some(t@),
        None => model is None,
    }
}

/// A checkpoint's value holds all its fields.
pub proof fn law_checkpoint_value(cp: Checkpoint)
    ensures
        cp.deep_view().name == cp.name@,
        cp.deep_view().summary == cp.summary@,
        holds(cp.deep_view().standards_doc, cp.standards_doc),
        lists(cp.deep_view().paths, cp.paths@),
        lists(cp.deep_view().content, cp.content@),
        lists(cp.deep_view().content_exempt_paths, cp.content_exempt_paths@),
        holds(cp.deep_view().semantic, cp.semantic),
{
}

/// A compiled checkpoint's value holds all its fields.
pub proof fn law_compiled_value(cp: CompiledCheckpoint)
    ensures
        cp.deep_view().name == cp.name@,
        cp.deep_view().summary == cp.summary@,
        holds(cp.deep_view().standards_doc, cp.standards_doc),
        cp.deep_view().mode == cp.mode.deep_view(),
{
}

/// The model lists the sources of the patterns, one for one.
pub open spec fn sources(model: Seq<Seq<char>>, patterns: Seq<Pattern>) -> bool {
    &&& model.len() == patterns.len()
    &&& forall|i: int| 0 <= i < patterns.len() ==> #[trigger] model[i] == patterns[i]@
}

/// A mode's value holds its kind and all its patterns.
pub proof fn law_mode_value(mode: Mode)
    ensures
        match mode {
            Mode::Path(patterns) => mode.deep_view() is Path && sources(
                mode.deep_view()->Path_0,
                patterns@,
            ),
            Mode::Content { patterns, exempt } => {
                &&& mode.deep_view() is Content
                &&& sources(mode.deep_view()->patterns, patterns@)
                &&& sources(mode.deep_view()->exempt, exempt@)
            },
            Mode::Semantic(kind) => mode.deep_view() == ModeModel::Semantic(kind),
        },
{
}

/// A declared mode's value holds its kind and all its patterns.
pub proof fn law_declared_mode_value(mode: DeclaredMode)
    ensures
        match mode {
            DeclaredMode::Path(patterns) => mode.deep_view() is Path && lists(
                mode.deep_view()->Path_0,
                patterns@,
            ),
            DeclaredMode::Content { patterns, exempt } => {
                &&& mode.deep_view() is Content
                &&& lists(mode.deep_view()->patterns, patterns@)
                &&& lists(mode.deep_view()->exempt, exempt@)
            },
            DeclaredMode::Semantic(kind) => mode.deep_view() == ModeModel::Semantic(kind),
        },
{
}

/// A fire's value holds all its fields.
pub proof fn law_fired_value(f: Fired)
    ensures
        f.deep_view().name == f.name@,
        f.deep_view().summary == f.summary@,
        lists(f.deep_view().matched, f.matched@),
{
}

/// The values of an acknowledgement and of a changed file hold all their fields.
pub proof fn law_small_values(ack: Ack, entry: FileEntry)
    ensures
        ack.deep_view().name == ack.name@,
        ack.deep_view().reason == ack.reason@,
        entry.deep_view().status == entry.status,
        entry.deep_view().path == entry.path@,
{
}

/// An error's value holds its kind and its texts.
pub proof fn law_error_value(e: CheckpointError)
    ensures
        e.deep_view() == match e {
            CheckpointError::Parse(a, b) => CheckpointErrorModel::Parse(a@, b@),
            CheckpointError::Regex(a, b) => CheckpointErrorModel::Regex(a@, b@),
            CheckpointError::UnknownSemantic(a, b) => CheckpointErrorModel::UnknownSemantic(a@, b@),
            CheckpointError::AmbiguousMode(a) => CheckpointErrorModel::AmbiguousMode(a@),
        },
{
}

/// The values of a verdict, of a run's result and of an answer hold all their fields.
pub proof fn law_result_values(v: Verdict, r: RunResult, b: GateBody)
    ensures
        v.deep_view().fired == v.fired.deep_view(),
        v.deep_view().acked == v.acked.deep_view(),
        v.deep_view().unacked == v.unacked.deep_view(),
        v.deep_view().exit_class == v.exit_class,
        r.deep_view().exit_code == r.exit_code,
        lists(r.deep_view().diagnostics, r.diagnostics@),
        r.deep_view().verdict is Some <==> r.verdict is Some,
        r.verdict is Some ==> r.deep_view().verdict->Some_0 == r.verdict->Some_0.deep_view(),
        b.deep_view().fired == b.fired.deep_view(),
        lists(b.deep_view().unacked, b.unacked@),
        b.deep_view().exit_class == b.exit_class,
        lists(b.deep_view().warnings, b.warnings@),
{
}

/// The values of a reply and of a command line's meaning hold their kind and what it
/// carries.
pub proof fn law_choice_values(reply: GateReply, asked: Invocation, options: Options)
    ensures
        reply.deep_view() == match reply {
            GateReply::Answer(body) => GateReplyModel::Answer(body.deep_view()),
            GateReply::Error(message) => GateReplyModel::Error(message@),
        },
        asked.deep_view() == match asked {
            Invocation::Gate => InvocationModel::Gate,
            Invocation::Help => InvocationModel::Help,
            Invocation::Usage(why) => InvocationModel::Usage(why@),
            Invocation::Native(o) => InvocationModel::Native(o.deep_view()),
        },
        options.deep_view().base_ref == options.base_ref@,
        options.deep_view().cached == options.cached,
        holds(options.deep_view().commit_msg_file, options.commit_msg_file),
        holds(options.deep_view().registry, options.registry),
        holds(options.deep_view().repo_registry, options.repo_registry),
        options.deep_view().format == options.format,
{
}

} // verus!
