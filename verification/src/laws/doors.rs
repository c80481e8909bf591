//! What each way into commitward promises, and that they agree.

use vstd::prelude::*;

use crate::ack::{is_acked, message_acks, AckModel};
use crate::anchor::{gate_file, guarded, ANCHOR_NAME};
use crate::baseline::{ascending, base_union, law_ordered_names, ordered};
use crate::cli::{early_exit_code, invocation};
use crate::compiled::{compiled, CompiledModel};
use crate::detect::{all_matches, current_names, detected, matched_by, FiredModel};
use crate::gate::{
    base_unusable, fired_names, gate_reply, inlined, reply_to, warnings_for, GateInput,
    GateRequest,
};
use crate::git::DiffOutcome;
use crate::gitdiff::{added_lines, name_status_entries};
use crate::laws::acks::{law_exit_class, law_partition};
use crate::laws::detection::{changed, law_anchor, law_anchor_blocks, law_no_change_no_fire};
use crate::registry::{merged, source_names, FileRead, RegistrySource};
use crate::report::{
    acked_text, counts_paragraph, counts_text, decimal, joined, markdown_report, match_lines,
    text_report, unacked_item, unacked_text,
};
use crate::run::{
    absent_diagnostics, absent_line, base_of, diff_diagnostics, diff_text, evaluated,
    load_diagnostics, load_line, registry_diagnostics, run_result, unusable_reason,
    usable_checkpoints, RunInputs,
};
use crate::text::contains_text;
use crate::verdict::{verdict_on, VerdictModel};

verus! {

// ── A run ────────────────────────────────────────────────────────────────────

/// There is a verdict, and one of its fires is not acknowledged by the message.
pub open spec fn blocks(verdict: Option<VerdictModel>, commit_msg: Seq<char>) -> bool {
    verdict matches Some(v) && exists|f: FiredModel| #[trigger]
        v.fired.contains(f) && !is_acked(message_acks(commit_msg), f.name)
}

/// A run blocks only on a fire that nobody acknowledged, and its exit code is 0, 1 or
/// 2.
pub proof fn law_only_an_unacked_fire_blocks(inputs: RunInputs)
    ensures
        0 <= run_result(inputs).exit_code <= 2,
        run_result(inputs).exit_code == 2 <==> blocks(run_result(inputs).verdict, inputs.commit_msg@),
{
    if let Some(v) = run_result(inputs).verdict {
        law_exit_class(v.fired, message_acks(inputs.commit_msg@));
    }
}

/// A run that could not come to a verdict allows the commit, and says why.
pub proof fn law_no_verdict_allows(inputs: RunInputs)
    requires
        run_result(inputs).verdict is None,
    ensures
        run_result(inputs).exit_code == 0,
        run_result(inputs).diagnostics.len() > 0,
{
}

/// A diff that failed, an unknown base and a registry that does not compile allow the
/// commit.
pub proof fn law_failures_allow(inputs: RunInputs)
    requires
        ({
            ||| inputs.name_status is Failed
            ||| inputs.name_status is UnknownBase
            ||| compiled(
                merged(usable_checkpoints(inputs.global), usable_checkpoints(inputs.repo)),
            ) is Err
        }),
    ensures
        run_result(inputs).exit_code == 0,
        run_result(inputs).diagnostics.len() > 0,
{
    let cps = merged(usable_checkpoints(inputs.global), usable_checkpoints(inputs.repo));
    if compiled(cps) is Ok && inputs.name_status is UnknownBase {
        law_no_change_no_fire(
            compiled(cps)->Ok_0,
            diff_text(inputs.unified),
            Some(base_of(inputs.base_registry)),
            inputs.commit_msg@,
        );
    }
}

/// Registries that are absent, cannot be read or do not parse count as empty: with no
/// other, nothing but a change of commitward's own files can block.
pub proof fn law_unusable_registries_allow(inputs: RunInputs)
    requires
        usable_checkpoints(inputs.global).len() == 0,
        usable_checkpoints(inputs.repo).len() == 0,
        forall|path: Seq<char>| #[trigger]
            changed(name_status_entries(diff_text(inputs.name_status)), path) ==> !gate_file(path),
    ensures
        run_result(inputs).exit_code == 0,
{
    let cps = merged(usable_checkpoints(inputs.global), usable_checkpoints(inputs.repo));
    reveal(Seq::filter);
    assert(cps.len() == 0);
    let files = name_status_entries(diff_text(inputs.name_status));
    let added = added_lines(diff_text(inputs.unified));
    let base = Some(base_of(inputs.base_registry));
    let none = Seq::<CompiledModel>::empty();
    law_anchor(none, files, added, base);
    assert(detected(none, files, added, base).len() == 0);
    law_exit_class(guarded(none, files, added, base), message_acks(inputs.commit_msg@));
}

/// Nothing fails silently. Whatever else happens, a missing global registry and each
/// registry that cannot be used have their lines, and so has a registry that does not
/// compile. Of a run that gets past compiling, a diff that failed has its line, and so
/// has an unknown base, whichever of the two diffs met it.
pub proof fn law_failures_are_said(inputs: RunInputs)
    ensures
        ({
            let said = run_result(inputs).diagnostics;
            let made = compiled(
                merged(usable_checkpoints(inputs.global), usable_checkpoints(inputs.repo)),
            );
            &&& !inputs.global_exists || inputs.global is Absent ==> said.contains(
                absent_line(inputs.global_path@),
            )
            &&& unusable_reason(inputs.global) matches Some(why) ==> said.contains(
                load_line(inputs.global_path@, why),
            )
            &&& unusable_reason(inputs.repo) matches Some(why) ==> said.contains(
                load_line(inputs.repo_path@, why),
            )
            &&& made matches Err(e) ==> said.contains(
                "commitward: registry compile error (fail-open): "@ + e.message(),
            )
            &&& made is Ok ==> match inputs.name_status {
                DiffOutcome::Failed(why) => said.contains(
                    "commitward: git diff failed (fail-open): "@ + why@,
                ),
                DiffOutcome::UnknownBase => {
                    &&& said.contains(
                        "commitward: unknown base revision (fail-open): nothing to compare"@,
                    )
                    &&& inputs.unified matches DiffOutcome::Failed(why) ==> said.contains(
                        "commitward: git diff failed (fail-open): added lines not scanned: "@ + why@,
                    )
                },
                DiffOutcome::Printed(_) => match inputs.unified {
                    DiffOutcome::Failed(why) => said.contains(
                        "commitward: git diff failed (fail-open): added lines not scanned: "@ + why@,
                    ),
                    DiffOutcome::UnknownBase => said.contains(
                        "commitward: unknown base revision (fail-open): added lines not scanned"@,
                    ),
                    DiffOutcome::Printed(_) => true,
                },
            }
        }),
{
    let said = run_result(inputs).diagnostics;
    let first = absent_diagnostics(inputs.global_path@, inputs.global_exists, inputs.global);
    let second = load_diagnostics(inputs.global_path@, inputs.global);
    let third = load_diagnostics(inputs.repo_path@, inputs.repo);
    let registries = registry_diagnostics(inputs);
    let diffs = diff_diagnostics(inputs);
    assert forall|i: int| 0 <= i < registries.len() implies said.contains(
        #[trigger] registries[i],
    ) by {
        assert(said[i] == registries[i]);
    }
    if first.len() > 0 {
        assert(registries[0] == first[0]);
    }
    if second.len() > 0 {
        assert(registries[first.len() as int] == second[0]);
    }
    if third.len() > 0 {
        assert(registries[(first.len() + second.len()) as int] == third[0]);
    }
    if run_result(inputs).verdict is None {
        assert(said[registries.len() as int] == said.last());
    } else {
        assert forall|i: int| 0 <= i < diffs.len() implies said.contains(#[trigger] diffs[i]) by {
            assert(said[registries.len() + i] == diffs[i]);
        }
        if diffs.len() > 0 {
            assert(said.contains(diffs[0]));
            assert(said.contains(diffs[diffs.len() - 1]));
        }
    }
}

/// A run blocks on an unacknowledged change of one of commitward's own files, whatever
/// the registries hold that compile.
pub proof fn law_run_anchor_blocks(inputs: RunInputs, path: Seq<char>)
    requires
        compiled(
            merged(usable_checkpoints(inputs.global), usable_checkpoints(inputs.repo)),
        ) is Ok,
        inputs.name_status is Printed,
        changed(name_status_entries(diff_text(inputs.name_status)), path),
        gate_file(path),
        !is_acked(message_acks(inputs.commit_msg@), ANCHOR_NAME@),
    ensures
        run_result(inputs).exit_code == 2,
{
    let cps = merged(usable_checkpoints(inputs.global), usable_checkpoints(inputs.repo));
    law_anchor_blocks(
        compiled(cps)->Ok_0,
        diff_text(inputs.name_status),
        diff_text(inputs.unified),
        Some(base_of(inputs.base_registry)),
        inputs.commit_msg@,
        path,
    );
}

/// The off switch lets every command line but a request through.
pub proof fn law_off_switch(args: Seq<Seq<char>>)
    requires
        !(invocation(args) is Gate),
    ensures
        early_exit_code(invocation(args), true) == Some(0i32),
{
}

// ── A request ────────────────────────────────────────────────────────────────

/// A supplied registry that does not parse.
pub open spec fn unparsed(source: Option<RegistrySource>) -> bool {
    source matches Some(s) && s.parsed is Err
}

/// A request is answered just when its registries parse and compile. One that could
/// not be evaluated is an error, never a clean pass.
pub proof fn law_request_error(request: GateRequest)
    ensures
        reply_to(request) is Error <==> {
            ||| unparsed(request.global_registry)
            ||| unparsed(request.repo_registry)
            ||| compiled(
                merged(
                    inlined("global"@, request.global_registry)->Ok_0,
                    inlined("repo"@, request.repo_registry)->Ok_0,
                ),
            ) is Err
        },
        gate_reply(GateInput::Request(request)) == reply_to(request),
{
}

/// The answer's class blocks just when some fire is not acknowledged, and its list
/// names just the fires that are not.
pub proof fn law_answer(request: GateRequest)
    requires
        reply_to(request) is Answer,
    ensures
        ({
            let body = reply_to(request)->Answer_0;
            let acks = message_acks(request.commit_msg@);
            &&& 0 <= body.exit_class <= 2
            &&& body.exit_class == 0 <==> body.fired.len() == 0
            &&& body.exit_class == 2 <==> body.unacked.len() > 0
            &&& forall|name: Seq<char>| #[trigger]
                body.unacked.contains(name) <==> !is_acked(acks, name) && exists|f: FiredModel|
                    #[trigger] body.fired.contains(f) && f.name == name
        }),
{
    let body = reply_to(request)->Answer_0;
    let acks = message_acks(request.commit_msg@);
    law_partition(body.fired, acks);
    let rest = verdict_on(body.fired, acks).unacked;
    assert(body.unacked == fired_names(rest));
    assert forall|name: Seq<char>| #[trigger] body.unacked.contains(name) <==> !is_acked(acks, name)
        && exists|f: FiredModel| #[trigger] body.fired.contains(f) && f.name == name by {
        if body.unacked.contains(name) {
            let k = choose|k: int| 0 <= k < body.unacked.len() && body.unacked[k] == name;
            assert(rest.contains(rest[k]));
            assert(body.fired.contains(rest[k]));
        }
        if !is_acked(acks, name) && exists|f: FiredModel|
            #[trigger] body.fired.contains(f) && f.name == name {
            let f = choose|f: FiredModel| #[trigger] body.fired.contains(f) && f.name == name;
            assert(rest.contains(f));
            let k = choose|k: int| 0 <= k < rest.len() && rest[k] == f;
            assert(body.unacked[k] == name);
        }
    }
}

/// An answer blocks on an unacknowledged change of one of commitward's own files,
/// whatever the registries hold.
pub proof fn law_answer_anchor_blocks(request: GateRequest, path: Seq<char>)
    requires
        reply_to(request) is Answer,
        changed(name_status_entries(request.name_status@), path),
        gate_file(path),
        !is_acked(message_acks(request.commit_msg@), ANCHOR_NAME@),
    ensures
        reply_to(request)->Answer_0.exit_class == 2,
{
    let cps = merged(
        inlined("global"@, request.global_registry)->Ok_0,
        inlined("repo"@, request.repo_registry)->Ok_0,
    );
    law_anchor_blocks(
        compiled(cps)->Ok_0,
        request.name_status@,
        request.diff@,
        base_union(request.base_repo_registry, request.base_global_registry),
        request.commit_msg@,
        path,
    );
}

/// A reply without warnings took everything into account: it ran checkpoints, and had
/// base registries to compare with, all of which parse.
pub proof fn law_no_warnings(
    checkpoints: nat,
    base_repo: Option<RegistrySource>,
    base_global: Option<RegistrySource>,
)
    ensures
        warnings_for(checkpoints, base_repo, base_global).len() == 0 <==> {
            &&& checkpoints > 0
            &&& base_repo is Some || base_global is Some
            &&& !base_unusable(base_repo)
            &&& !base_unusable(base_global)
        },
{
}

/// The names at the base are those of either base registry, in order and each once;
/// they are unknown only when neither was supplied.
pub proof fn law_base_union(
    repo: Option<RegistrySource>,
    global: Option<RegistrySource>,
    name: Seq<char>,
)
    ensures
        base_union(repo, global) is None <==> repo is None && global is None,
        base_union(repo, global) matches Some(names) ==> {
            &&& ascending(names)
            &&& names.contains(name) <==> {
                ||| repo matches Some(r) && source_names(r).contains(name)
                ||| global matches Some(g) && source_names(g).contains(name)
            }
        },
{
    if let Some(r) = repo {
        law_ordered_names(source_names(r));
        if let Some(g) = global {
            let both = source_names(r) + source_names(g);
            law_ordered_names(both);
            assert(ordered(both).contains(name) <==> both.contains(name));
            if both.contains(name) {
                let k = choose|k: int| 0 <= k < both.len() && both[k] == name;
                if k < source_names(r).len() {
                    assert(source_names(r)[k] == name);
                } else {
                    assert(source_names(g)[k - source_names(r).len()] == name);
                }
            }
            if source_names(r).contains(name) {
                let k = choose|k: int| 0 <= k < source_names(r).len() && source_names(r)[k] == name;
                assert(both[k] == name);
            }
            if source_names(g).contains(name) {
                let k = choose|k: int| 0 <= k < source_names(g).len() && source_names(g)[k] == name;
                assert(both[source_names(r).len() + k] == name);
            }
        }
    } else if let Some(g) = global {
        law_ordered_names(source_names(g));
    }
}

// ── Both ─────────────────────────────────────────────────────────────────────

/// A registry file, and the same registry inlined.
pub open spec fn same_registry(read: FileRead, source: Option<RegistrySource>) -> bool {
    match (read, source) {
        (FileRead::Absent, None) => true,
        (FileRead::Read(s), Some(t)) => s == t && s.parsed is Ok,
        _ => false,
    }
}

/// With an unknown base a checkpoint-removed check matches what it matches with an
/// empty one: nothing.
proof fn lemma_empty_base(
    cps: Seq<CompiledModel>,
    name_status: Seq<char>,
    diff: Seq<char>,
    commit_msg: Seq<char>,
)
    ensures
        evaluated(cps, name_status, diff, None, commit_msg) == evaluated(
            cps,
            name_status,
            diff,
            Some(Seq::empty()),
            commit_msg,
        ),
{
    let files = name_status_entries(name_status);
    let added = added_lines(diff);
    let empty = Some(Seq::<Seq<char>>::empty());
    reveal(Seq::filter);
    assert forall|i: int| 0 <= i < cps.len() implies matched_by(
        (#[trigger] cps[i]).mode,
        current_names(cps),
        files,
        added,
        None,
    ) == matched_by(cps[i].mode, current_names(cps), files, added, empty) by {}
    assert(all_matches(cps, files, added, None) =~= all_matches(cps, files, added, empty));
}

/// A run and a request about the same commit, with the same registries, come to the
/// same decision: the same fires and the same class.
pub proof fn law_doors_agree(inputs: RunInputs, request: GateRequest)
    requires
        same_registry(inputs.global, request.global_registry),
        same_registry(inputs.repo, request.repo_registry),
        request.base_repo_registry == inputs.base_registry,
        request.base_global_registry is None,
        inputs.name_status == DiffOutcome::Printed(request.name_status),
        inputs.unified == DiffOutcome::Printed(request.diff),
        request.commit_msg@ == inputs.commit_msg@,
        reply_to(request) is Answer,
    ensures
        run_result(inputs).verdict matches Some(v) && v.fired == reply_to(request)->Answer_0.fired,
        run_result(inputs).exit_code == reply_to(request)->Answer_0.exit_class,
{
    let cps = merged(usable_checkpoints(inputs.global), usable_checkpoints(inputs.repo));
    lemma_empty_base(
        compiled(cps)->Ok_0,
        request.name_status@,
        request.diff@,
        request.commit_msg@,
    );
}

// ── Reports ──────────────────────────────────────────────────────────────────

/// A text stands in what holds it between two others.
proof fn lemma_stands_between(before: Seq<char>, text: Seq<char>, after: Seq<char>)
    ensures
        contains_text(before + text + after, text),
{
    let whole = before + text + after;
    let n = before.len() as int;
    assert(whole.subrange(n, n + text.len()) =~= text);
}

/// What stands in one of the joined texts stands in all of them.
proof fn lemma_stands_in_joined(texts: Seq<Seq<char>>, i: int, text: Seq<char>)
    requires
        0 <= i < texts.len(),
        contains_text(texts[i], text),
    ensures
        contains_text(joined(texts), text),
    decreases texts.len(),
{
    let front = texts.drop_last();
    if i == texts.len() - 1 {
        lemma_stands_beside(joined(front), texts.last(), Seq::empty(), text);
        assert(joined(front) + texts.last() + Seq::<char>::empty() =~= joined(texts));
    } else {
        lemma_stands_in_joined(front, i, text);
        lemma_stands_beside(Seq::empty(), joined(front), texts.last(), text);
        assert(Seq::<char>::empty() + joined(front) + texts.last() =~= joined(texts));
    }
}

/// What stands in a text stands in what holds that text between two others.
proof fn lemma_stands_beside(
    before: Seq<char>,
    middle: Seq<char>,
    after: Seq<char>,
    text: Seq<char>,
)
    requires
        contains_text(middle, text),
    ensures
        contains_text(before + middle + after, text),
{
    let whole = before + middle + after;
    let k = choose|k: int|
        0 <= k <= middle.len() - text.len() && #[trigger] middle.subrange(k, k + text.len())
            == text;
    let n = before.len() + k;
    assert(whole.subrange(n, n + text.len()) =~= middle.subrange(k, k + text.len()));
}

/// Acknowledging does not erase a fire from the text report: the name of every fire
/// stands in it, acknowledged or not.
pub proof fn law_report_names_every_fire(
    fired: Seq<FiredModel>,
    acks: Seq<AckModel>,
    f: FiredModel,
)
    requires
        fired.contains(f),
    ensures
        contains_text(text_report(verdict_on(fired, acks)), f.name),
{
    let v = verdict_on(fired, acks);
    let loud = v.unacked.map_values(|x: FiredModel| unacked_text(x));
    let quiet = v.acked.map_values(|x: FiredModel| acked_text(x));
    let counts = counts_text(v);
    law_partition(fired, acks);
    if is_acked(acks, f.name) {
        assert(v.acked.contains(f));
        let k = choose|k: int| 0 <= k < v.acked.len() && v.acked[k] == f;
        let after = " — "@ + f.summary + "\n"@;
        lemma_stands_between("  acked    "@, f.name, after);
        assert("  acked    "@ + f.name + after =~= acked_text(f));
        lemma_stands_in_joined(quiet, k, f.name);
        lemma_stands_beside(counts + joined(loud), joined(quiet), Seq::empty(), f.name);
        assert(counts + joined(loud) + joined(quiet) + Seq::<char>::empty() =~= text_report(v));
    } else {
        assert(v.unacked.contains(f));
        let k = choose|k: int| 0 <= k < v.unacked.len() && v.unacked[k] == f;
        let after = " — "@ + f.summary + "\n"@ + match_lines(
            "             matched: "@,
            f.matched,
            "\n"@,
        );
        lemma_stands_between("  UNACKED  "@, f.name, after);
        assert("  UNACKED  "@ + f.name + after =~= unacked_text(f));
        lemma_stands_in_joined(loud, k, f.name);
        lemma_stands_beside(counts, joined(loud), joined(quiet), f.name);
        assert(counts + joined(loud) + joined(quiet) =~= text_report(v));
    }
}

/// The Markdown report names every fire that is not acknowledged.
pub proof fn law_markdown_names_every_unacked_fire(
    fired: Seq<FiredModel>,
    acks: Seq<AckModel>,
    f: FiredModel,
)
    requires
        fired.contains(f),
        !is_acked(acks, f.name),
    ensures
        contains_text(markdown_report(verdict_on(fired, acks)), f.name),
{
    let v = verdict_on(fired, acks);
    let items = v.unacked.map_values(|x: FiredModel| unacked_item(x));
    law_partition(fired, acks);
    assert(v.unacked.contains(f));
    let k = choose|k: int| 0 <= k < v.unacked.len() && v.unacked[k] == f;
    let after = "** — "@ + f.summary + "\n"@ + match_lines("  - Matched: `"@, f.matched, "`\n"@);
    lemma_stands_between("- **"@, f.name, after);
    assert("- **"@ + f.name + after =~= unacked_item(f));
    lemma_stands_in_joined(items, k, f.name);
    let head = "## HITL Checkpoints\n\n"@ + counts_paragraph(v) + ("### Unacknowledged ("@
        + decimal(v.unacked.len()) + ")\n\n"@);
    lemma_stands_beside(head, joined(items), Seq::empty(), f.name);
    assert(head + joined(items) + Seq::<char>::empty() =~= markdown_report(v));
}

} // verus!
