//! The request door: everything inlined in one request, one reply.
//!
//! Here the decision stands in the reply, and a check that could not be made is an
//! error or a warning, never a clean pass.

use vstd::prelude::*;

use crate::baseline::{base_names, base_union};
use crate::compiled::{compile, compiled};
use crate::detect::{Fired, FiredModel};
use crate::registry::{merge, merged, Checkpoint, CheckpointModel, RegistrySource};
use crate::run::{evaluate, evaluated};
use crate::verdict::{Verdict, VerdictModel};

verus! {

/// A request. What is missing counts as empty.
pub struct GateRequest {
    /// The unified diff.
    pub diff: String,
    /// The output of `git diff --name-status`.
    pub name_status: String,
    pub commit_msg: String,
    pub global_registry: Option<RegistrySource>,
    pub repo_registry: Option<RegistrySource>,
    /// The repository's registry as it stood at the base.
    pub base_repo_registry: Option<RegistrySource>,
    /// The global registry as it stood at the base.
    pub base_global_registry: Option<RegistrySource>,
}

/// What came in.
pub enum GateInput {
    /// Nothing could be read, for this reason.
    Unreadable(String),
    /// What was read is no request, for this reason.
    Malformed(String),
    Request(GateRequest),
}

/// The answer to a request that could be evaluated.
pub struct GateBody {
    pub fired: Vec<Fired>,
    /// The names of the fires that nobody acknowledged.
    pub unacked: Vec<String>,
    pub exit_class: i32,
    /// What the answer could not take into account.
    pub warnings: Vec<String>,
}

/// The reply to a request.
pub enum GateReply {
    Answer(GateBody),
    /// The request could not be evaluated, for this reason.
    Error(String),
}

/// The mathematical value of a `GateBody`.
#[verifier::ext_equal]
pub struct GateBodyModel {
    pub fired: Seq<FiredModel>,
    pub unacked: Seq<Seq<char>>,
    pub exit_class: i32,
    pub warnings: Seq<Seq<char>>,
}

/// The mathematical value of a `GateReply`.
#[verifier::ext_equal]
pub enum GateReplyModel {
    Answer(GateBodyModel),
    Error(Seq<char>),
}

impl DeepView for GateBody {
    type V = GateBodyModel;

    open spec fn deep_view(&self) -> GateBodyModel {
        GateBodyModel {
            fired: self.fired.deep_view(),
            unacked: self.unacked.deep_view(),
            exit_class: self.exit_class,
            warnings: self.warnings.deep_view(),
        }
    }
}

impl DeepView for GateReply {
    type V = GateReplyModel;

    open spec fn deep_view(&self) -> GateReplyModel {
        match self {
            GateReply::Answer(body) => GateReplyModel::Answer(body.deep_view()),
            GateReply::Error(message) => GateReplyModel::Error(message@),
        }
    }
}

// ── Inlined registries ───────────────────────────────────────────────────────

/// The checkpoints of an inlined registry: none when it was not supplied, an error
/// that names it when it does not parse.
pub open spec fn inlined(label: Seq<char>, source: Option<RegistrySource>) -> Result<
    Seq<CheckpointModel>,
    Seq<char>,
> {
    match source {
        None => Ok(Seq::empty()),
        Some(s) => match s.parsed {
            Ok(cps) => Ok(cps.deep_view()),
            Err(why) => Err(label + " registry parse error: "@ + why@),
        },
    }
}

/// The checkpoints of an inlined registry.
pub fn load_inlined_registry(label: &str, source: Option<RegistrySource>) -> (r: Result<
    Vec<Checkpoint>,
    String,
>)
    ensures
        match r {
            Ok(cps) => inlined(label@, source) == Ok::<Seq<CheckpointModel>, Seq<char>>(
                cps.deep_view(),
            ),
            Err(why) => inlined(label@, source) == Err::<Seq<CheckpointModel>, Seq<char>>(why@),
        },
{
    match source {
        None => {
            let none: Vec<Checkpoint> = Vec::new();
            assert(none.deep_view() =~= Seq::empty());
            Ok(none)
        },
        Some(s) => match s.parsed {
            Ok(cps) => Ok(cps),
            Err(why) => Err(
                label.to_owned().concat(" registry parse error: ").concat(why.as_str()),
            ),
        },
    }
}

// ── Warnings ─────────────────────────────────────────────────────────────────

/// A base registry was supplied, has a text, and does not parse.
pub open spec fn base_unusable(source: Option<RegistrySource>) -> bool {
    source matches Some(s) && s.text@.len() > 0 && s.parsed is Err
}

/// What is said when no checkpoint was supplied.
pub open spec fn no_checkpoints_warning() -> Seq<char> {
    "no checkpoints were supplied: every commit that leaves commitward's own files alone passes"@
}

/// What is said when no base registry was supplied.
pub open spec fn no_base_warning() -> Seq<char> {
    "no base registry was supplied: checkpoint-removed cannot fire"@
}

/// What is said of a base registry that does not parse.
pub open spec fn bad_base_warning(label: Seq<char>) -> Seq<char> {
    "the base "@ + label + " registry does not parse: checkpoint-removed cannot see its names"@
}

/// The warning, if the condition holds.
pub open spec fn warn_if(condition: bool, warning: Seq<char>) -> Seq<Seq<char>> {
    if condition {
        seq![warning]
    } else {
        Seq::empty()
    }
}

/// What a reply cannot take into account.
pub open spec fn warnings_for(
    checkpoints: nat,
    base_repo: Option<RegistrySource>,
    base_global: Option<RegistrySource>,
) -> Seq<Seq<char>> {
    warn_if(checkpoints == 0, no_checkpoints_warning()) + warn_if(
        base_repo is None && base_global is None,
        no_base_warning(),
    ) + warn_if(base_unusable(base_repo), bad_base_warning("repo"@)) + warn_if(
        base_unusable(base_global),
        bad_base_warning("global"@),
    )
}

/// Appends the warning, if the condition holds.
fn push_if(warnings: &mut Vec<String>, condition: bool, warning: String)
    ensures
        final(warnings).deep_view() == old(warnings).deep_view() + warn_if(condition, warning@),
{
    let ghost before = warnings.deep_view();
    let ghost text = warning@;
    if condition {
        warnings.push(warning);
    }
    assert(warnings.deep_view() =~= before + warn_if(condition, text));
}

/// Whether a base registry was supplied, has a text, and does not parse.
fn is_unusable(source: &Option<RegistrySource>) -> (r: bool)
    ensures
        r == base_unusable(*source),
{
    match source {
        Some(s) => !s.text.as_str().is_empty() && s.parsed.is_err(),
        None => false,
    }
}

/// What is said of a base registry that does not parse.
fn bad_base(label: &str) -> (r: String)
    ensures
        r@ == bad_base_warning(label@),
{
    "the base ".to_owned().concat(label).concat(
        " registry does not parse: checkpoint-removed cannot see its names",
    )
}

/// The warnings of a reply.
pub fn gate_warnings(
    checkpoints: usize,
    base_repo: &Option<RegistrySource>,
    base_global: &Option<RegistrySource>,
) -> (r: Vec<String>)
    ensures
        r.deep_view() == warnings_for(checkpoints as nat, *base_repo, *base_global),
{
    let mut warnings: Vec<String> = Vec::new();
    push_if(
        &mut warnings,
        checkpoints == 0,
        "no checkpoints were supplied: every commit that leaves commitward's own files alone passes".to_owned(),
    );
    push_if(
        &mut warnings,
        base_repo.is_none() && base_global.is_none(),
        "no base registry was supplied: checkpoint-removed cannot fire".to_owned(),
    );
    push_if(&mut warnings, is_unusable(base_repo), bad_base("repo"));
    push_if(&mut warnings, is_unusable(base_global), bad_base("global"));
    assert(warnings.deep_view() =~= warnings_for(checkpoints as nat, *base_repo, *base_global));
    warnings
}

// ── The reply ────────────────────────────────────────────────────────────────

/// The names of the fires, in order.
pub open spec fn fired_names(fired: Seq<FiredModel>) -> Seq<Seq<char>> {
    fired.map_values(|f: FiredModel| f.name)
}

/// The answer that a verdict and its warnings make.
pub open spec fn body_of(verdict: VerdictModel, warnings: Seq<Seq<char>>) -> GateBodyModel {
    GateBodyModel {
        fired: verdict.fired,
        unacked: fired_names(verdict.unacked),
        exit_class: verdict.exit_class,
        warnings,
    }
}

/// The reply to a request.
pub open spec fn reply_to(request: GateRequest) -> GateReplyModel {
    match (inlined("global"@, request.global_registry), inlined("repo"@, request.repo_registry)) {
        (Err(why), _) => GateReplyModel::Error(why),
        (Ok(_), Err(why)) => GateReplyModel::Error(why),
        (Ok(global), Ok(repo)) => match compiled(merged(global, repo)) {
            Err(e) => GateReplyModel::Error("registry compile error: "@ + e.message()),
            Ok(cps) => GateReplyModel::Answer(
                body_of(
                    evaluated(
                        cps,
                        request.name_status@,
                        request.diff@,
                        base_union(request.base_repo_registry, request.base_global_registry),
                        request.commit_msg@,
                    ),
                    warnings_for(
                        merged(global, repo).len(),
                        request.base_repo_registry,
                        request.base_global_registry,
                    ),
                ),
            ),
        },
    }
}

/// The reply to what came in.
pub open spec fn gate_reply(input: GateInput) -> GateReplyModel {
    match input {
        GateInput::Unreadable(why) => GateReplyModel::Error("failed to read stdin: "@ + why@),
        GateInput::Malformed(why) => GateReplyModel::Error("invalid gate request JSON: "@ + why@),
        GateInput::Request(request) => reply_to(request),
    }
}

/// The answer that a verdict and its warnings make.
fn gate_body(verdict: Verdict, warnings: Vec<String>) -> (r: GateBody)
    ensures
        r.deep_view() == body_of(verdict.deep_view(), warnings.deep_view()),
{
    let mut names: Vec<String> = Vec::new();
    let mut i: usize = 0;
    while i < verdict.unacked.len()
        invariant
            i <= verdict.unacked@.len(),
            names@.len() == i,
            forall|j: int| 0 <= j < i ==> (#[trigger] names@[j])@ == verdict.unacked@[j].name@,
        decreases verdict.unacked@.len() - i,
    {
        names.push(verdict.unacked[i].name.clone());
        i += 1;
    }
    assert(names.deep_view() =~= fired_names(verdict.deep_view().unacked));
    GateBody {
        fired: verdict.fired,
        unacked: names,
        exit_class: verdict.exit_class,
        warnings,
    }
}

/// Answers a request.
fn answer(request: GateRequest) -> (r: GateReply)
    ensures
        r.deep_view() == reply_to(request),
{
    let global = match load_inlined_registry("global", request.global_registry) {
        Ok(cps) => cps,
        Err(why) => {
            return GateReply::Error(why);
        },
    };
    let repo = match load_inlined_registry("repo", request.repo_registry) {
        Ok(cps) => cps,
        Err(why) => {
            return GateReply::Error(why);
        },
    };
    let cps = merge(global, repo);
    let supplied: usize = cps.len();
    assert(supplied == cps.deep_view().len());
    match compile(cps) {
        Err(e) => GateReply::Error(
            "registry compile error: ".to_owned().concat(e.message().as_str()),
        ),
        Ok(checkpoints) => {
            let base = base_names(&request.base_repo_registry, &request.base_global_registry);
            let verdict = evaluate(
                &checkpoints,
                request.name_status.as_str(),
                request.diff.as_str(),
                &base,
                request.commit_msg.as_str(),
            );
            let warnings = gate_warnings(
                supplied,
                &request.base_repo_registry,
                &request.base_global_registry,
            );
            GateReply::Answer(gate_body(verdict, warnings))
        },
    }
}

/// Replies to what came in.
///
/// The decision stands in the reply's `exit_class`. Only what could not be evaluated
/// is an error: input that cannot be read or is no request, a registry that was
/// supplied and does not parse, one that does not compile.
pub fn gate(input: GateInput) -> (r: GateReply)
    ensures
        r.deep_view() == gate_reply(input),
{
    match input {
        GateInput::Unreadable(why) => GateReply::Error(
            "failed to read stdin: ".to_owned().concat(why.as_str()),
        ),
        GateInput::Malformed(why) => GateReply::Error(
            "invalid gate request JSON: ".to_owned().concat(why.as_str()),
        ),
        GateInput::Request(request) => answer(request),
    }
}

/// The exit code of the process that gave a reply: 0 whenever the request was
/// evaluated, whatever the decision; 1 otherwise.
pub fn gate_exit_code(reply: &GateReply) -> (r: i32)
    ensures
        r == (if reply is Answer {
            0i32
        } else {
            1i32
        }),
{
    match reply {
        GateReply::Answer(_) => 0,
        GateReply::Error(_) => 1,
    }
}

} // verus!
