//! From what a run or a request holds to what it decides.

use vstd::prelude::*;

use crate::ack::{is_acked, message_acks, unacked};
use crate::anchor::guarded;
use crate::baseline::base_union;
use crate::compiled::{compiled, compiled_one, CompiledModel};
use crate::detect::{detected, FiredModel};
use crate::gate::{
    bad_base_warning, base_unusable, fired_names, gate_reply, no_base_warning,
    no_checkpoints_warning, reply_to, warn_if, warnings_for, GateInput, GateReplyModel,
    GateRequest,
};
use crate::git::DiffOutcome;
use crate::gitdiff::{added_lines, name_status_entries};
use crate::laws::acks::{law_exit_class, law_partition};
use crate::laws::detection::{
    fires_with, law_any_line_fires, law_any_path_fires, law_any_removal_fires,
};
use crate::laws::doors::{law_base_union, law_failures_are_said};
use crate::laws::registries::{law_compile, law_compiled_mode};
use crate::pattern::regex_finds;
use crate::registry::{
    merged, source_names, Checkpoint, CheckpointErrorModel, CheckpointModel, FileRead,
    RegistrySource,
};
use crate::run::{base_of, diff_text, evaluated, run_result, usable_checkpoints, RunInputs};
use crate::verdict::verdict_on;

verus! {

// ── What the inputs hold ─────────────────────────────────────────────────────

/// The checkpoints of an inlined registry: none where none was supplied.
pub open spec fn held(source: Option<RegistrySource>) -> Seq<CheckpointModel> {
    match source {
        Some(s) => match s.parsed {
            Ok(cps) => cps.deep_view(),
            Err(_) => Seq::empty(),
        },
        None => Seq::empty(),
    }
}

/// The checkpoints of a registry file: none where it cannot be used.
pub open spec fn on_file(read: FileRead) -> Seq<CheckpointModel> {
    match read {
        FileRead::Read(s) => match s.parsed {
            Ok(cps) => cps.deep_view(),
            Err(_) => Seq::empty(),
        },
        FileRead::Absent => Seq::empty(),
        FileRead::Unreadable(_) => Seq::empty(),
    }
}

/// The registry has a text that parses, with a checkpoint of that name at `k`.
pub open spec fn names_at(source: Option<RegistrySource>, k: int, name: Seq<char>) -> bool {
    match source {
        Some(s) => match s.parsed {
            Ok(cps) => s.text@.len() > 0 && 0 <= k < cps@.len() && cps@[k].name@ == name,
            Err(_) => false,
        },
        None => false,
    }
}

/// A registry that names a checkpoint at `k` gives that name.
proof fn lemma_names_at(source: RegistrySource, k: int, name: Seq<char>)
    requires
        names_at(Some(source), k, name),
    ensures
        source_names(source).contains(name),
{
    assert(source_names(source)[k] == name);
}

// ── Evaluating ───────────────────────────────────────────────────────────────

/// What the checkpoints fire, the evaluation holds.
proof fn lemma_fires_in_evaluation(
    cps: Seq<CompiledModel>,
    name_status: Seq<char>,
    diff: Seq<char>,
    base: Option<Seq<Seq<char>>>,
    commit_msg: Seq<char>,
    name: Seq<char>,
    summary: Seq<char>,
    m: Seq<char>,
)
    requires
        fires_with(
            detected(cps, name_status_entries(name_status), added_lines(diff), base),
            name,
            summary,
            m,
        ),
    ensures
        fires_with(
            evaluated(cps, name_status, diff, base, commit_msg).fired,
            name,
            summary,
            m,
        ),
{
    let fired = detected(cps, name_status_entries(name_status), added_lines(diff), base);
    let all = evaluated(cps, name_status, diff, base, commit_msg).fired;
    let (k, n) = choose|k: int, n: int|
        #![trigger fired[k].matched[n]]
        0 <= k < fired.len() && fired[k].name == name && fired[k].summary == summary && 0 <= n
            < fired[k].matched.len() && fired[k].matched[n] == m;
    assert(all[k] == fired[k]);
    assert(all[k].matched[n] == m);
}

/// A checkpoint of a registry that compiles guards what it declares to guard: a path
/// checkpoint any changed path that any of its patterns matches, a content checkpoint any
/// changed and not exempt path any added line of which any of its patterns matches, a
/// checkpoint-removed check any name of the base that is gone once any registry changed.
proof fn lemma_checkpoint_guards(
    all: Seq<CheckpointModel>,
    c: int,
    name_status: Seq<char>,
    diff: Seq<char>,
    base: Option<Seq<Seq<char>>>,
    commit_msg: Seq<char>,
)
    requires
        compiled(all) is Ok,
        0 <= c < all.len(),
    ensures
        ({
            let cp = all[c];
            let files = name_status_entries(name_status);
            let added = added_lines(diff);
            let fired = evaluated(compiled(all)->Ok_0, name_status, diff, base, commit_msg).fired;
            &&& forall|n: int, j: int|
                #![trigger files[n], cp.paths[j]]
                0 <= n < files.len() && 0 <= j < cp.paths.len() && regex_finds(
                    cp.paths[j],
                    true,
                    files[n].path,
                ) ==> fires_with(fired, cp.name, cp.summary, files[n].path)
            &&& forall|n: int, k: int, j: int|
                #![trigger added[files[n].path][k], cp.content[j]]
                0 <= n < files.len() && not_exempt(cp, files[n].path) && added.contains_key(
                    files[n].path,
                ) && 0 <= k < added[files[n].path].len() && 0 <= j < cp.content.len()
                    && regex_finds(cp.content[j], true, added[files[n].path][k]) ==> fires_with(
                    fired,
                    cp.name,
                    cp.summary,
                    files[n].path,
                )
            &&& forall|n: int, dir: Seq<char>, k: int|
                #![trigger files[n], dir + "checkpoints.yaml"@, base->Some_0[k]]
                cp.semantic is Some && 0 <= n < files.len() && files[n].path == dir
                    + "checkpoints.yaml"@ && base is Some && 0 <= k < base->Some_0.len() && lacks(
                    all,
                    base->Some_0[k],
                ) ==> fires_with(fired, cp.name, cp.summary, base->Some_0[k])
        }),
{
    let cp = all[c];
    let cps = compiled(all)->Ok_0;
    let files = name_status_entries(name_status);
    let added = added_lines(diff);
    let fired = evaluated(cps, name_status, diff, base, commit_msg).fired;
    law_compile(all);
    assert(compiled_one(all[c]) == Ok::<
        CompiledModel,
        CheckpointErrorModel,
    >(cps[c]));
    law_compiled_mode(cp);
    assert forall|n: int, j: int|
        #![trigger files[n], cp.paths[j]]
        0 <= n < files.len() && 0 <= j < cp.paths.len() && regex_finds(
            cp.paths[j],
            true,
            files[n].path,
        ) implies fires_with(fired, cp.name, cp.summary, files[n].path) by {
        law_any_path_fires(cps, c, cp.paths, j, files, n, added, base);
        lemma_fires_in_evaluation(
            cps,
            name_status,
            diff,
            base,
            commit_msg,
            cp.name,
            cp.summary,
            files[n].path,
        );
    }
    assert forall|n: int, k: int, j: int|
        #![trigger added[files[n].path][k], cp.content[j]]
        0 <= n < files.len() && not_exempt(cp, files[n].path) && added.contains_key(files[n].path)
            && 0 <= k < added[files[n].path].len() && 0 <= j < cp.content.len() && regex_finds(
            cp.content[j],
            true,
            added[files[n].path][k],
        ) implies fires_with(fired, cp.name, cp.summary, files[n].path) by {
        law_any_line_fires(
            cps,
            c,
            cp.content,
            cp.content_exempt_paths,
            j,
            files,
            n,
            added,
            k,
            base,
        );
        lemma_fires_in_evaluation(
            cps,
            name_status,
            diff,
            base,
            commit_msg,
            cp.name,
            cp.summary,
            files[n].path,
        );
    }
    assert forall|n: int, dir: Seq<char>, k: int|
        #![trigger files[n], dir + "checkpoints.yaml"@, base->Some_0[k]]
        cp.semantic is Some && 0 <= n < files.len() && files[n].path == dir + "checkpoints.yaml"@
            && base is Some && 0 <= k < base->Some_0.len() && lacks(
            all,
            base->Some_0[k],
        ) implies fires_with(fired, cp.name, cp.summary, base->Some_0[k]) by {
        let names = base->Some_0;
        assert forall|i: int| 0 <= i < cps.len() implies (#[trigger] cps[i]).name != names[k] by {
            assert(compiled_one(all[i]) == Ok::<
                CompiledModel,
                CheckpointErrorModel,
            >(cps[i]));
            law_compiled_mode(all[i]);
            assert(all[i].name != names[k]);
        }
        law_any_removal_fires(cps, c, files, n, dir, added, names, k);
        lemma_fires_in_evaluation(
            cps,
            name_status,
            diff,
            base,
            commit_msg,
            cp.name,
            cp.summary,
            names[k],
        );
    }
}

/// None of a checkpoint's exemptions matches the path.
pub open spec fn not_exempt(cp: CheckpointModel, path: Seq<char>) -> bool {
    forall|e: int|
        0 <= e < cp.content_exempt_paths.len() ==> !regex_finds(
            #[trigger] cp.content_exempt_paths[e],
            true,
            path,
        )
}

/// No checkpoint has that name.
pub open spec fn lacks(all: Seq<CheckpointModel>, name: Seq<char>) -> bool {
    forall|i: int| 0 <= i < all.len() ==> (#[trigger] all[i]).name != name
}

/// A fire whose name the message does not acknowledge blocks.
proof fn lemma_fire_blocks(
    fired: Seq<FiredModel>,
    commit_msg: Seq<char>,
    name: Seq<char>,
    summary: Seq<char>,
    m: Seq<char>,
)
    requires
        fires_with(fired, name, summary, m),
        !is_acked(message_acks(commit_msg), name),
    ensures
        verdict_on(fired, message_acks(commit_msg)).exit_class == 2,
        fired_names(unacked(fired, message_acks(commit_msg))).contains(name),
{
    let acks = message_acks(commit_msg);
    let (k, n) = choose|k: int, n: int|
        #![trigger fired[k].matched[n]]
        0 <= k < fired.len() && fired[k].name == name && fired[k].summary == summary && 0 <= n
            < fired[k].matched.len() && fired[k].matched[n] == m;
    assert(fired.contains(fired[k]));
    law_exit_class(fired, acks);
    law_partition(fired, acks);
    let rest = unacked(fired, acks);
    assert(rest.contains(fired[k]));
    let r = choose|r: int| 0 <= r < rest.len() && rest[r] == fired[k];
    assert(fired_names(rest)[r] == name);
}

// ── A request ────────────────────────────────────────────────────────────────

/// An answer is made of the request's own parts: the merged registries, the changed files
/// of its name status, the added lines of its diff, the names of either base registry,
/// and the acknowledgements of its message.
pub proof fn law_answer_in_full(request: GateRequest)
    requires
        request.global_registry matches Some(s) ==> s.parsed is Ok,
        request.repo_registry matches Some(s) ==> s.parsed is Ok,
        compiled(merged(held(request.global_registry), held(request.repo_registry))) is Ok,
    ensures
        ({
            let all = merged(held(request.global_registry), held(request.repo_registry));
            let base = base_union(request.base_repo_registry, request.base_global_registry);
            let fired = guarded(
                compiled(all)->Ok_0,
                name_status_entries(request.name_status@),
                added_lines(request.diff@),
                base,
            );
            let verdict = verdict_on(fired, message_acks(request.commit_msg@));
            &&& reply_to(request) is Answer
            &&& reply_to(request)->Answer_0.fired == fired
            &&& reply_to(request)->Answer_0.exit_class == verdict.exit_class
            &&& reply_to(request)->Answer_0.unacked.len() == verdict.unacked.len()
            &&& forall|i: int|
                0 <= i < verdict.unacked.len() ==> #[trigger] reply_to(
                    request,
                )->Answer_0.unacked[i] == verdict.unacked[i].name
        }),
{
}

/// Each error of a request says what went wrong: input that could not be read, input that
/// is no request, a registry that does not parse, the global one first, or one that does
/// not compile.
pub proof fn law_error_replies(request: GateRequest, why: String)
    ensures
        gate_reply(GateInput::Unreadable(why)) == GateReplyModel::Error(
            "failed to read stdin: "@ + why@,
        ),
        gate_reply(GateInput::Malformed(why)) == GateReplyModel::Error(
            "invalid gate request JSON: "@ + why@,
        ),
        request.global_registry matches Some(s) && s.parsed is Err ==> reply_to(request)
            == GateReplyModel::Error(
            "global registry parse error: "@ + request.global_registry->Some_0.parsed->Err_0@,
        ),
        (request.global_registry is None || request.global_registry->Some_0.parsed is Ok)
            && request.repo_registry is Some && request.repo_registry->Some_0.parsed is Err
            ==> reply_to(request) == GateReplyModel::Error(
            "repo registry parse error: "@ + request.repo_registry->Some_0.parsed->Err_0@,
        ),
        (request.global_registry is None || request.global_registry->Some_0.parsed is Ok) && (
        request.repo_registry is None || request.repo_registry->Some_0.parsed is Ok) && compiled(
            merged(held(request.global_registry), held(request.repo_registry)),
        ) is Err ==> reply_to(request) == GateReplyModel::Error(
            "registry compile error: "@ + compiled(
                merged(held(request.global_registry), held(request.repo_registry)),
            )->Err_0.message(),
        ),
{
    reveal_strlit("global");
    reveal_strlit("repo");
    reveal_strlit(" registry parse error: ");
    reveal_strlit("global registry parse error: ");
    reveal_strlit("repo registry parse error: ");
    assert("global"@ + " registry parse error: "@ =~= "global registry parse error: "@);
    assert("repo"@ + " registry parse error: "@ =~= "repo registry parse error: "@);
}

/// A checkpoint that a base registry names and the merged registry lacks is found,
/// whichever of the two base registries were supplied and whichever of them names it:
/// once any changed path ends with `checkpoints.yaml`, every removal check fires with the
/// name, and blocks unless it is acknowledged.
pub proof fn law_answer_sees_removals(
    request: GateRequest,
    c: int,
    n: int,
    dir: Seq<char>,
    k: int,
    name: Seq<char>,
)
    requires
        reply_to(request) is Answer,
        0 <= c < merged(held(request.global_registry), held(request.repo_registry)).len(),
        merged(held(request.global_registry), held(request.repo_registry))[c].semantic is Some,
        0 <= n < name_status_entries(request.name_status@).len(),
        name_status_entries(request.name_status@)[n].path == dir + "checkpoints.yaml"@,
        names_at(request.base_repo_registry, k, name) || names_at(
            request.base_global_registry,
            k,
            name,
        ),
        lacks(merged(held(request.global_registry), held(request.repo_registry)), name),
    ensures
        ({
            let body = reply_to(request)->Answer_0;
            let cp = merged(held(request.global_registry), held(request.repo_registry))[c];
            &&& fires_with(body.fired, cp.name, cp.summary, name)
            &&& !is_acked(message_acks(request.commit_msg@), cp.name) ==> body.exit_class == 2
                && body.unacked.contains(cp.name)
        }),
{
    let all = merged(held(request.global_registry), held(request.repo_registry));
    let cp = all[c];
    let body = reply_to(request)->Answer_0;
    let base = base_union(request.base_repo_registry, request.base_global_registry);
    lemma_answer_compiles(request);
    if names_at(request.base_repo_registry, k, name) {
        lemma_names_at(request.base_repo_registry->Some_0, k, name);
    } else {
        lemma_names_at(request.base_global_registry->Some_0, k, name);
    }
    law_base_union(request.base_repo_registry, request.base_global_registry, name);
    let names = base->Some_0;
    let b = choose|b: int| 0 <= b < names.len() && names[b] == name;
    lemma_checkpoint_guards(
        all,
        c,
        request.name_status@,
        request.diff@,
        base,
        request.commit_msg@,
    );
    let files = name_status_entries(request.name_status@);
    assert(files[n].path == dir + "checkpoints.yaml"@ && base->Some_0[b] == name);
    assert(fires_with(body.fired, cp.name, cp.summary, name));
    if !is_acked(message_acks(request.commit_msg@), cp.name) {
        lemma_fire_blocks(body.fired, request.commit_msg@, cp.name, cp.summary, name);
    }
}

/// An answer comes of registries that parse and compile.
proof fn lemma_answer_compiles(request: GateRequest)
    requires
        reply_to(request) is Answer,
    ensures
        compiled(merged(held(request.global_registry), held(request.repo_registry))) is Ok,
        ({
            let all = merged(held(request.global_registry), held(request.repo_registry));
            let base = base_union(request.base_repo_registry, request.base_global_registry);
            reply_to(request)->Answer_0.fired == evaluated(
                compiled(all)->Ok_0,
                request.name_status@,
                request.diff@,
                base,
                request.commit_msg@,
            ).fired
        }),
{
}

/// A request fires on any changed path that any pattern of any path checkpoint of either
/// registry matches, and blocks unless that is acknowledged.
pub proof fn law_answer_sees_paths(request: GateRequest, c: int, j: int, n: int)
    requires
        reply_to(request) is Answer,
        0 <= c < merged(held(request.global_registry), held(request.repo_registry)).len(),
        0 <= j < merged(held(request.global_registry), held(request.repo_registry))[c].paths.len(),
        0 <= n < name_status_entries(request.name_status@).len(),
        regex_finds(
            merged(held(request.global_registry), held(request.repo_registry))[c].paths[j],
            true,
            name_status_entries(request.name_status@)[n].path,
        ),
    ensures
        ({
            let body = reply_to(request)->Answer_0;
            let cp = merged(held(request.global_registry), held(request.repo_registry))[c];
            let path = name_status_entries(request.name_status@)[n].path;
            &&& fires_with(body.fired, cp.name, cp.summary, path)
            &&& !is_acked(message_acks(request.commit_msg@), cp.name) ==> body.exit_class == 2
                && body.unacked.contains(cp.name)
        }),
{
    let all = merged(held(request.global_registry), held(request.repo_registry));
    let cp = all[c];
    let body = reply_to(request)->Answer_0;
    let path = name_status_entries(request.name_status@)[n].path;
    lemma_answer_compiles(request);
    let base = base_union(request.base_repo_registry, request.base_global_registry);
    lemma_checkpoint_guards(
        all,
        c,
        request.name_status@,
        request.diff@,
        base,
        request.commit_msg@,
    );
    assert(fires_with(body.fired, cp.name, cp.summary, path));
    if !is_acked(message_acks(request.commit_msg@), cp.name) {
        lemma_fire_blocks(body.fired, request.commit_msg@, cp.name, cp.summary, path);
    }
}

/// A request fires on any changed and not exempt path of which any added line of its diff
/// matches any pattern of any content checkpoint of either registry, and blocks unless
/// that is acknowledged.
pub proof fn law_answer_sees_added_lines(request: GateRequest, c: int, j: int, n: int, k: int)
    requires
        reply_to(request) is Answer,
        0 <= c < merged(held(request.global_registry), held(request.repo_registry)).len(),
        0 <= n < name_status_entries(request.name_status@).len(),
        ({
            let cp = merged(held(request.global_registry), held(request.repo_registry))[c];
            let path = name_status_entries(request.name_status@)[n].path;
            let added = added_lines(request.diff@);
            &&& not_exempt(cp, path)
            &&& added.contains_key(path)
            &&& 0 <= k < added[path].len()
            &&& 0 <= j < cp.content.len()
            &&& regex_finds(cp.content[j], true, added[path][k])
        }),
    ensures
        ({
            let body = reply_to(request)->Answer_0;
            let cp = merged(held(request.global_registry), held(request.repo_registry))[c];
            let path = name_status_entries(request.name_status@)[n].path;
            &&& fires_with(body.fired, cp.name, cp.summary, path)
            &&& !is_acked(message_acks(request.commit_msg@), cp.name) ==> body.exit_class == 2
                && body.unacked.contains(cp.name)
        }),
{
    let all = merged(held(request.global_registry), held(request.repo_registry));
    let cp = all[c];
    let body = reply_to(request)->Answer_0;
    let files = name_status_entries(request.name_status@);
    let path = files[n].path;
    lemma_answer_compiles(request);
    let base = base_union(request.base_repo_registry, request.base_global_registry);
    lemma_checkpoint_guards(
        all,
        c,
        request.name_status@,
        request.diff@,
        base,
        request.commit_msg@,
    );
    let added = added_lines(request.diff@);
    assert(regex_finds(cp.content[j], true, added[files[n].path][k]));
    assert(fires_with(body.fired, cp.name, cp.summary, path));
    if !is_acked(message_acks(request.commit_msg@), cp.name) {
        lemma_fire_blocks(body.fired, request.commit_msg@, cp.name, cp.summary, path);
    }
}

/// Each warning is given just when it applies: that no checkpoint ran, that there was no
/// base to compare with, and of each base registry that it has a text that does not parse.
pub proof fn law_warnings(
    checkpoints: nat,
    base_repo: Option<RegistrySource>,
    base_global: Option<RegistrySource>,
)
    ensures
        ({
            let given = warnings_for(checkpoints, base_repo, base_global);
            let no_base = base_repo is None && base_global is None;
            let bad_repo = base_repo is Some && base_repo->Some_0.text@.len() > 0
                && base_repo->Some_0.parsed is Err;
            let bad_global = base_global is Some && base_global->Some_0.text@.len() > 0
                && base_global->Some_0.parsed is Err;
            &&& checkpoints == 0 ==> given.contains(no_checkpoints_warning())
            &&& no_base ==> given.contains(no_base_warning())
            &&& bad_repo ==> given.contains(bad_base_warning("repo"@))
            &&& bad_global ==> given.contains(bad_base_warning("global"@))
            &&& given.len() == (if checkpoints == 0 {
                1int
            } else {
                0
            }) + (if no_base {
                1int
            } else {
                0
            }) + (if bad_repo {
                1int
            } else {
                0
            }) + (if bad_global {
                1int
            } else {
                0
            })
        }),
{
    let given = warnings_for(checkpoints, base_repo, base_global);
    let a = warn_if(checkpoints == 0, no_checkpoints_warning());
    let b = warn_if(base_repo is None && base_global is None, no_base_warning());
    let c = warn_if(base_unusable(base_repo), bad_base_warning("repo"@));
    let d = warn_if(base_unusable(base_global), bad_base_warning("global"@));
    assert(given == a + b + c + d);
    if a.len() > 0 {
        assert(given[0] == a[0]);
    }
    if b.len() > 0 {
        assert(given[a.len() as int] == b[0]);
    }
    if c.len() > 0 {
        assert(given[(a.len() + b.len()) as int] == c[0]);
    }
    if d.len() > 0 {
        assert(given[(a.len() + b.len() + c.len()) as int] == d[0]);
    }
}

/// An answer's warnings are about the registries that it merged and the base registries
/// that it was given.
pub proof fn law_answer_warnings(request: GateRequest)
    requires
        reply_to(request) is Answer,
    ensures
        reply_to(request)->Answer_0.warnings == warnings_for(
            merged(held(request.global_registry), held(request.repo_registry)).len(),
            request.base_repo_registry,
            request.base_global_registry,
        ),
{
}

// ── A run ────────────────────────────────────────────────────────────────────

/// What `git diff` printed: nothing where it printed nothing or failed.
pub open spec fn output(outcome: DiffOutcome) -> Seq<char> {
    match outcome {
        DiffOutcome::Printed(text) => text@,
        DiffOutcome::UnknownBase => Seq::empty(),
        DiffOutcome::Failed(_) => Seq::empty(),
    }
}

/// A run whose registries compile and whose list of files did not fail comes to the
/// verdict of its own parts: the merged registries, the changed files and the added lines
/// that git printed, the names of the repository's registry at the base, and the
/// acknowledgements of the message. Its exit code is the verdict's.
pub proof fn law_run_in_full(inputs: RunInputs)
    requires
        compiled(merged(on_file(inputs.global), on_file(inputs.repo))) is Ok,
        !(inputs.name_status is Failed),
    ensures
        ({
            let all = merged(on_file(inputs.global), on_file(inputs.repo));
            let names = base_union(inputs.base_registry, None);
            let base = match names {
                Some(n) => n,
                None => Seq::empty(),
            };
            let fired = guarded(
                compiled(all)->Ok_0,
                name_status_entries(output(inputs.name_status)),
                added_lines(output(inputs.unified)),
                Some(base),
            );
            let verdict = verdict_on(fired, message_acks(inputs.commit_msg@));
            run_result(inputs).verdict == Some(verdict) && run_result(inputs).exit_code
                == verdict.exit_class
        }),
{
    lemma_run_parts(inputs);
}

/// Of a registry file that is there and cannot be used, whether it cannot be read or does
/// not parse, a run says which it is and why; of a global registry that is not there, that
/// it is missing.
pub proof fn law_broken_registries_are_said(inputs: RunInputs, why: String)
    ensures
        ({
            let said = run_result(inputs).diagnostics;
            let global = inputs.global_path@;
            let repo = inputs.repo_path@;
            let head = "commitward: registry load error (fail-open): "@;
            let on_global = head + global + ": "@ + (global + ": "@ + why@);
            let on_repo = head + repo + ": "@ + (repo + ": "@ + why@);
            &&& inputs.global == FileRead::Unreadable(why) ==> said.contains(on_global)
            &&& inputs.repo == FileRead::Unreadable(why) ==> said.contains(on_repo)
            &&& inputs.global is Read && inputs.global->Read_0.parsed == Err::<
                Vec<Checkpoint>,
                String,
            >(why) ==> said.contains(on_global)
            &&& inputs.repo is Read && inputs.repo->Read_0.parsed == Err::<Vec<Checkpoint>, String>(
                why,
            ) ==> said.contains(on_repo)
            &&& !inputs.global_exists || inputs.global is Absent ==> said.contains(
                "commitward: WARNING global checkpoint registry not found at "@ + global
                    + " — global baseline INACTIVE (only repo-local overrides apply). Pass --registry or set COMMITWARD_REGISTRY. (fail-open: continuing)"@,
            )
        }),
{
    law_failures_are_said(inputs);
}

/// A run in which nothing failed says nothing but its report.
pub proof fn law_healthy_run_is_quiet(inputs: RunInputs)
    requires
        inputs.global_exists,
        inputs.global matches FileRead::Read(s) && s.parsed is Ok,
        inputs.repo is Absent || (inputs.repo matches FileRead::Read(s) && s.parsed is Ok),
        compiled(merged(on_file(inputs.global), on_file(inputs.repo))) is Ok,
        inputs.name_status is Printed,
        inputs.unified is Printed,
    ensures
        run_result(inputs).diagnostics.len() == 0,
        run_result(inputs).verdict is Some,
{
    lemma_run_parts(inputs);
}

/// A run whose registries do not compile, or whose list of files failed, comes to no
/// verdict and exits with 0; any other comes to one.
pub proof fn law_when_there_is_a_verdict(inputs: RunInputs)
    ensures
        run_result(inputs).verdict is None <==> compiled(
            merged(on_file(inputs.global), on_file(inputs.repo)),
        ) is Err || inputs.name_status is Failed,
        run_result(inputs).verdict is None ==> run_result(inputs).exit_code == 0,
{
    lemma_run_parts(inputs);
}

/// The parts of a run are read as they are meant.
proof fn lemma_run_parts(inputs: RunInputs)
    ensures
        usable_checkpoints(inputs.global) == on_file(inputs.global),
        usable_checkpoints(inputs.repo) == on_file(inputs.repo),
        diff_text(inputs.name_status) == output(inputs.name_status),
        diff_text(inputs.unified) == output(inputs.unified),
{
}

/// A run fires on any changed path that any pattern of any path checkpoint of either
/// registry matches, and blocks unless that is acknowledged.
pub proof fn law_run_sees_paths(inputs: RunInputs, c: int, j: int, n: int)
    requires
        compiled(merged(on_file(inputs.global), on_file(inputs.repo))) is Ok,
        !(inputs.name_status is Failed),
        0 <= c < merged(on_file(inputs.global), on_file(inputs.repo)).len(),
        0 <= j < merged(on_file(inputs.global), on_file(inputs.repo))[c].paths.len(),
        0 <= n < name_status_entries(output(inputs.name_status)).len(),
        regex_finds(
            merged(on_file(inputs.global), on_file(inputs.repo))[c].paths[j],
            true,
            name_status_entries(output(inputs.name_status))[n].path,
        ),
    ensures
        ({
            let result = run_result(inputs);
            let cp = merged(on_file(inputs.global), on_file(inputs.repo))[c];
            let path = name_status_entries(output(inputs.name_status))[n].path;
            &&& result.verdict is Some
            &&& fires_with(result.verdict->Some_0.fired, cp.name, cp.summary, path)
            &&& !is_acked(message_acks(inputs.commit_msg@), cp.name) ==> result.exit_code == 2
        }),
{
    let all = merged(on_file(inputs.global), on_file(inputs.repo));
    let cp = all[c];
    let path = name_status_entries(output(inputs.name_status))[n].path;
    lemma_run_parts(inputs);
    lemma_checkpoint_guards(
        all,
        c,
        output(inputs.name_status),
        output(inputs.unified),
        Some(base_of(inputs.base_registry)),
        inputs.commit_msg@,
    );
    let fired = run_result(inputs).verdict->Some_0.fired;
    assert(fires_with(fired, cp.name, cp.summary, path));
    if !is_acked(message_acks(inputs.commit_msg@), cp.name) {
        lemma_fire_blocks(fired, inputs.commit_msg@, cp.name, cp.summary, path);
    }
}

/// A run fires on any changed and not exempt path of which any added line matches any
/// pattern of any content checkpoint of either registry, and blocks unless that is
/// acknowledged.
pub proof fn law_run_sees_added_lines(inputs: RunInputs, c: int, j: int, n: int, k: int)
    requires
        compiled(merged(on_file(inputs.global), on_file(inputs.repo))) is Ok,
        !(inputs.name_status is Failed),
        0 <= c < merged(on_file(inputs.global), on_file(inputs.repo)).len(),
        0 <= n < name_status_entries(output(inputs.name_status)).len(),
        ({
            let cp = merged(on_file(inputs.global), on_file(inputs.repo))[c];
            let path = name_status_entries(output(inputs.name_status))[n].path;
            let added = added_lines(output(inputs.unified));
            &&& not_exempt(cp, path)
            &&& added.contains_key(path)
            &&& 0 <= k < added[path].len()
            &&& 0 <= j < cp.content.len()
            &&& regex_finds(cp.content[j], true, added[path][k])
        }),
    ensures
        ({
            let result = run_result(inputs);
            let cp = merged(on_file(inputs.global), on_file(inputs.repo))[c];
            let path = name_status_entries(output(inputs.name_status))[n].path;
            &&& result.verdict is Some
            &&& fires_with(result.verdict->Some_0.fired, cp.name, cp.summary, path)
            &&& !is_acked(message_acks(inputs.commit_msg@), cp.name) ==> result.exit_code == 2
        }),
{
    let all = merged(on_file(inputs.global), on_file(inputs.repo));
    let cp = all[c];
    let files = name_status_entries(output(inputs.name_status));
    let path = files[n].path;
    lemma_run_parts(inputs);
    lemma_checkpoint_guards(
        all,
        c,
        output(inputs.name_status),
        output(inputs.unified),
        Some(base_of(inputs.base_registry)),
        inputs.commit_msg@,
    );
    let added = added_lines(output(inputs.unified));
    let fired = run_result(inputs).verdict->Some_0.fired;
    assert(regex_finds(cp.content[j], true, added[files[n].path][k]));
    assert(fires_with(fired, cp.name, cp.summary, path));
    if !is_acked(message_acks(inputs.commit_msg@), cp.name) {
        lemma_fire_blocks(fired, inputs.commit_msg@, cp.name, cp.summary, path);
    }
}

/// A checkpoint that the repository's registry named at the base and the merged registry
/// lacks is found: once any changed path ends with `checkpoints.yaml`, every removal check
/// fires with the name, and blocks unless it is acknowledged.
pub proof fn law_run_sees_removals(
    inputs: RunInputs,
    c: int,
    n: int,
    dir: Seq<char>,
    k: int,
    name: Seq<char>,
)
    requires
        compiled(merged(on_file(inputs.global), on_file(inputs.repo))) is Ok,
        !(inputs.name_status is Failed),
        0 <= c < merged(on_file(inputs.global), on_file(inputs.repo)).len(),
        merged(on_file(inputs.global), on_file(inputs.repo))[c].semantic is Some,
        0 <= n < name_status_entries(output(inputs.name_status)).len(),
        name_status_entries(output(inputs.name_status))[n].path == dir + "checkpoints.yaml"@,
        names_at(inputs.base_registry, k, name),
        lacks(merged(on_file(inputs.global), on_file(inputs.repo)), name),
    ensures
        ({
            let result = run_result(inputs);
            let cp = merged(on_file(inputs.global), on_file(inputs.repo))[c];
            &&& result.verdict is Some
            &&& fires_with(result.verdict->Some_0.fired, cp.name, cp.summary, name)
            &&& !is_acked(message_acks(inputs.commit_msg@), cp.name) ==> result.exit_code == 2
        }),
{
    let all = merged(on_file(inputs.global), on_file(inputs.repo));
    let cp = all[c];
    let files = name_status_entries(output(inputs.name_status));
    let base = Some(base_of(inputs.base_registry));
    lemma_run_parts(inputs);
    lemma_names_at(inputs.base_registry->Some_0, k, name);
    law_base_union(inputs.base_registry, None, name);
    let names = base->Some_0;
    assert(base_union(inputs.base_registry, None) == base);
    let b = choose|b: int| 0 <= b < names.len() && names[b] == name;
    lemma_checkpoint_guards(
        all,
        c,
        output(inputs.name_status),
        output(inputs.unified),
        base,
        inputs.commit_msg@,
    );
    let fired = run_result(inputs).verdict->Some_0.fired;
    assert(files[n].path == dir + "checkpoints.yaml"@ && base->Some_0[b] == name);
    assert(fires_with(fired, cp.name, cp.summary, name));
    if !is_acked(message_acks(inputs.commit_msg@), cp.name) {
        lemma_fire_blocks(fired, inputs.commit_msg@, cp.name, cp.summary, name);
    }
}

} // verus!
