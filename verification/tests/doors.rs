use commitward::gate::gate_exit_code;
use commitward::git::DiffOutcome;
use commitward::{
    compile, detect, gate, load_checkpoints, run, AddedLines, Checkpoint, FileEntry, FileRead,
    Fired, GateBody, GateInput, GateReply, GateRequest, RegistrySource, RunInputs, RunResult,
};
use serde_yaml::Value;

// ── Reading YAML ─────────────────────────────────────────────────────────────

fn text_at(entry: &Value, key: &str) -> Result<String, String> {
    let value = entry.get(key).and_then(Value::as_str);
    value.map(str::to_string).ok_or_else(|| format!("missing field `{key}`"))
}

fn texts_at(entry: &Value, key: &str) -> Vec<String> {
    let items = entry.get(key).and_then(Value::as_sequence).cloned().unwrap_or_default();
    items.iter().filter_map(Value::as_str).map(str::to_string).collect()
}

fn parse(text: &str) -> Result<Vec<Checkpoint>, String> {
    let root: Value = serde_yaml::from_str(text).map_err(|e| e.to_string())?;
    text_at(&root, "version")?;
    let entries = root.get("checkpoints").and_then(Value::as_sequence).ok_or("no checkpoints")?;
    entries
        .iter()
        .map(|entry| {
            Ok(Checkpoint {
                name: text_at(entry, "name")?,
                summary: text_at(entry, "summary")?,
                standards_doc: text_at(entry, "standards_doc").ok(),
                paths: texts_at(entry, "paths"),
                content: texts_at(entry, "content"),
                content_exempt_paths: texts_at(entry, "content_exempt_paths"),
                semantic: text_at(entry, "semantic").ok(),
            })
        })
        .collect()
}

fn source(text: &str) -> RegistrySource {
    RegistrySource {
        text: text.to_string(),
        parsed: parse(text),
    }
}

// ── Requests ─────────────────────────────────────────────────────────────────

fn request(name_status: &str, commit_msg: &str) -> GateRequest {
    GateRequest {
        diff: String::new(),
        name_status: name_status.to_string(),
        commit_msg: commit_msg.to_string(),
        global_registry: None,
        repo_registry: None,
        base_repo_registry: None,
        base_global_registry: None,
    }
}

fn body_of(reply: GateReply) -> GateBody {
    assert_eq!(gate_exit_code(&reply), 0);
    match reply {
        GateReply::Answer(body) => body,
        GateReply::Error(message) => panic!("the request must be answered: {message}"),
    }
}

fn error_of(reply: GateReply) -> String {
    assert_ne!(gate_exit_code(&reply), 0, "an error must not exit 0");
    match reply {
        GateReply::Error(message) => message,
        GateReply::Answer(_) => panic!("the request must not be answered"),
    }
}

fn fired_names(body: &GateBody) -> Vec<&str> {
    body.fired.iter().map(|f| f.name.as_str()).collect()
}

const AGENTS_REGISTRY: &str = r#"version: "1"
checkpoints:
  - name: touches-agents-md
    summary: edits AGENTS.md
    paths:
      - "(^|/)AGENTS\\.md$"
"#;

#[test]
fn a_path_checkpoint_fires_and_is_unacked_by_default() {
    let req = GateRequest {
        global_registry: Some(source(AGENTS_REGISTRY)),
        ..request("M\tAGENTS.md", "docs: tweak AGENTS.md")
    };
    let body = body_of(gate(GateInput::Request(req)));
    assert_eq!(body.exit_class, 2, "an unacked fire blocks");
    assert!(fired_names(&body).contains(&"touches-agents-md"));
    assert_eq!(body.unacked, ["touches-agents-md"]);
}

#[test]
fn a_hitl_ack_trailer_clears_the_fire() {
    let req = GateRequest {
        global_registry: Some(source(AGENTS_REGISTRY)),
        ..request(
            "M\tAGENTS.md",
            "docs: tweak AGENTS.md\n\nHITL-ACK: touches-agents-md intentional",
        )
    };
    let body = body_of(gate(GateInput::Request(req)));
    assert_eq!(body.exit_class, 1, "an acked fire is informational, not a block");
    assert!(body.unacked.is_empty());
}

#[test]
fn an_unmatched_diff_does_not_fire() {
    let req = GateRequest {
        global_registry: Some(source(AGENTS_REGISTRY)),
        ..request("M\tsrc/lib.rs", "feat: x")
    };
    let body = body_of(gate(GateInput::Request(req)));
    assert_eq!(body.exit_class, 0);
    assert!(body.fired.is_empty());
}

#[test]
fn invalid_request_json_is_a_hard_error_not_a_false_clean_pass() {
    let why = match serde_json::from_str::<serde_json::Value>("not json") {
        Ok(_) => panic!("no JSON"),
        Err(e) => e.to_string(),
    };
    let message = error_of(gate(GateInput::Malformed(why)));
    assert!(message.starts_with("invalid gate request JSON: "), "{message}");
}

#[test]
fn unreadable_input_is_an_error() {
    let reply = gate(GateInput::Unreadable("broken pipe".to_string()));
    assert_eq!(error_of(reply), "failed to read stdin: broken pipe");
}

#[test]
fn a_removed_checkpoint_is_detected_through_the_global_base() {
    let current = "version: \"1\"\ncheckpoints:\n  - name: guard-removed\n    summary: Detect removed checkpoints\n    semantic: checkpoint_removed\n";
    let base_global = "version: \"1\"\ncheckpoints:\n  - name: guard-removed\n    summary: Detect removed checkpoints\n    semantic: checkpoint_removed\n  - name: old-global-guard\n    summary: An old global path guard\n    paths:\n      - \"(^|/)secrets$\"\n";
    let req = GateRequest {
        global_registry: Some(source(current)),
        base_global_registry: Some(source(base_global)),
        ..request("M\tpromise/checkpoints.yaml", "chore: edit registry")
    };
    let body = body_of(gate(GateInput::Request(req)));
    let names = fired_names(&body);
    assert!(
        names.contains(&"guard-removed"),
        "checkpoint_removed guard should fire on a global-base removal: {names:?}"
    );
    assert_eq!(body.exit_class, 2, "an unacked removed-checkpoint blocks");
}

#[test]
fn a_content_checkpoint_sees_the_inlined_diff() {
    let registry = "version: \"1\"\ncheckpoints:\n  - name: destructive\n    summary: s\n    content: [\"rm -rf\"]\n";
    let req = GateRequest {
        diff: "diff --git a/x.sh b/x.sh\n--- a/x.sh\n+++ b/x.sh\n@@ -0,0 +1 @@\n+rm -rf /\n".to_string(),
        repo_registry: Some(source(registry)),
        ..request("M\tx.sh", "")
    };
    let body = body_of(gate(GateInput::Request(req)));
    assert_eq!(body.fired.len(), 1);
    assert_eq!(body.fired[0].matched, ["x.sh"]);
}

#[test]
fn a_registry_that_does_not_compile_is_an_error() {
    let registry = "version: \"1\"\ncheckpoints:\n  - name: empty\n    summary: s\n";
    let req = GateRequest {
        repo_registry: Some(source(registry)),
        ..request("", "")
    };
    assert_eq!(
        error_of(gate(GateInput::Request(req))),
        "registry compile error: checkpoint 'empty': set exactly one of paths|content|semantic"
    );
}

#[test]
fn the_repo_registry_is_named_when_it_does_not_parse() {
    let req = GateRequest {
        repo_registry: Some(source("not: valid: yaml: [\n")),
        ..request("", "")
    };
    let message = error_of(gate(GateInput::Request(req)));
    assert!(message.starts_with("repo registry parse error: "), "{message}");
}

// ── Warnings ─────────────────────────────────────────────────────────────────

const GOOD_REGISTRY: &str = r#"
version: "1"
checkpoints:
  - name: guard-a
    summary: Guards A
    paths:
      - "(^|/)a\\.txt$"
"#;

#[test]
fn a_malformed_registry_is_an_error_envelope_not_a_clean_pass() {
    let req = GateRequest {
        global_registry: Some(source(
            "checkpoints:\n  - name: [unclosed\n    summary: broken\n",
        )),
        ..request("M\ta.txt", "chore: something")
    };
    let msg = error_of(gate(GateInput::Request(req)));
    assert!(
        msg.contains("global") && msg.contains("parse"),
        "the message must name which registry failed and why; got {msg:?}"
    );
}

#[test]
fn a_valid_registry_without_a_base_warns_that_checkpoint_removed_is_inactive() {
    let req = GateRequest {
        global_registry: Some(source(GOOD_REGISTRY)),
        ..request("M\tsrc/lib.rs", "chore: something")
    };
    let warnings = body_of(gate(GateInput::Request(req))).warnings;
    assert!(
        warnings.iter().any(|w| w.contains("checkpoint-removed")),
        "with no base registry the checkpoint-removed guard cannot fire; got {warnings:?}"
    );
}

#[test]
fn an_empty_checkpoint_set_warns_that_everything_passes() {
    let req = request("M\tsrc/lib.rs", "chore: something");
    let warnings = body_of(gate(GateInput::Request(req))).warnings;
    assert!(
        warnings
            .iter()
            .any(|s| s.contains("no checkpoints were supplied") && s.contains("passes")),
        "no registry at all is the loudest silent pass there is; got {warnings:?}"
    );
}

#[test]
fn a_fully_supplied_request_produces_no_warnings() {
    let req = GateRequest {
        global_registry: Some(source(GOOD_REGISTRY)),
        base_global_registry: Some(source(GOOD_REGISTRY)),
        ..request("M\tsrc/lib.rs", "chore: something")
    };
    let body = body_of(gate(GateInput::Request(req)));
    assert_eq!(
        body.warnings.len(),
        0,
        "a complete request must warn about nothing; got {:?}",
        body.warnings
    );
    assert_eq!(body.exit_class, 0, "and still evaluate normally");
}

#[test]
fn a_base_registry_that_does_not_parse_is_warned_of() {
    let req = GateRequest {
        global_registry: Some(source(GOOD_REGISTRY)),
        base_repo_registry: Some(source("not: valid: yaml: [\n")),
        ..request("", "")
    };
    let warnings = body_of(gate(GateInput::Request(req))).warnings;
    assert_eq!(
        warnings,
        ["the base repo registry does not parse: checkpoint-removed cannot see its names"]
    );
    // An empty base registry held nothing.
    let req = GateRequest {
        global_registry: Some(source(GOOD_REGISTRY)),
        base_repo_registry: Some(source("")),
        ..request("", "")
    };
    assert!(body_of(gate(GateInput::Request(req))).warnings.is_empty());
}

// ── Runs ─────────────────────────────────────────────────────────────────────

const DANGER_REGISTRY: &str = "version: \"1\"\n\
checkpoints:\n\
\x20 - name: danger-file\n\
\x20   summary: touches danger.sh\n\
\x20   paths:\n\
\x20     - \"(^|/)danger\\\\.sh$\"\n";

/// A run without registries on a diff of these files.
fn inputs(name_status: &str, commit_msg: &str) -> RunInputs {
    RunInputs {
        global_path: "/nonexistent/global.yaml".to_string(),
        global_exists: false,
        global: FileRead::Absent,
        repo_path: "/nonexistent/repo.yaml".to_string(),
        repo: FileRead::Absent,
        name_status: DiffOutcome::Printed(name_status.to_string()),
        unified: DiffOutcome::Printed(String::new()),
        base_registry: None,
        commit_msg: commit_msg.to_string(),
    }
}

/// A run with the guarded change: the registry comes in with the file that it guards.
fn guarded_change(commit_msg: &str) -> RunInputs {
    RunInputs {
        repo_path: ".commitward/checkpoints.yaml".to_string(),
        repo: FileRead::Read(source(DANGER_REGISTRY)),
        ..inputs("A\t.commitward/checkpoints.yaml\nA\tdanger.sh\n", commit_msg)
    }
}

fn names_fired(result: &RunResult) -> Vec<&str> {
    match &result.verdict {
        Some(v) => v.fired.iter().map(|f| f.name.as_str()).collect(),
        None => panic!("the run must come to a verdict"),
    }
}

#[test]
fn fires_exit_2_on_guarded_path_without_ack() {
    let result = run(guarded_change("add danger\n"));
    assert_eq!(
        result.exit_code, 2,
        "expected exit 2 (fired+unacked); diagnostics: {:?}",
        result.diagnostics
    );
    assert_eq!(names_fired(&result), ["danger-file", "anchor-gate-integrity"]);
}

#[test]
fn fail_open_exit_0_when_registries_absent() {
    let result = run(inputs("A\tdanger.sh\n", ""));
    assert_eq!(result.exit_code, 0, "absent registry must fail open to exit 0");
    assert!(
        result.diagnostics.iter().any(|d| d.contains("WARNING")),
        "fail-open path must emit a diagnostic, not silently disable"
    );
}

#[test]
fn ack_trailer_lifts_the_block_to_exit_1() {
    // Two fires, the checkpoint's and the anchor's; both must be acknowledged.
    let result = run(guarded_change(
        "add danger\n\nHITL-ACK: danger-file smoke test\n\
         HITL-ACK: anchor-gate-integrity adopting a registry is a gate change\n",
    ));
    assert_eq!(
        result.exit_code, 1,
        "a matching HITL-ACK trailer must lift the block (fired+acked -> exit 1, not 2)"
    );
    let one = run(guarded_change("add danger\n\nHITL-ACK: danger-file smoke test\n"));
    assert_eq!(one.exit_code, 2);
}

#[test]
fn nf2_registry_weakening_fires_through_the_real_cli() {
    // One commit removes the destructive-ops checkpoint and uses what it guarded.
    let mut weakened = source(SHIPPED);
    if let Ok(cps) = &mut weakened.parsed {
        cps.retain(|c| c.name != "destructive-ops");
    }
    let result = run(RunInputs {
        repo: FileRead::Read(weakened),
        unified: DiffOutcome::Printed(
            "diff --git a/cleanup.sh b/cleanup.sh\n--- /dev/null\n+++ b/cleanup.sh\n@@ -0,0 +1 @@\n+rm -rf / --no-preserve-root\n"
                .to_string(),
        ),
        base_registry: Some(source(SHIPPED)),
        ..inputs("M\t.commitward/checkpoints.yaml\nA\tcleanup.sh\n", "tidy up")
    });
    assert_eq!(
        result.exit_code, 2,
        "removing a guard and using what it guarded, in one commit, must reach a human"
    );
    let names = names_fired(&result);
    assert!(
        names.contains(&"gate-self-mod") || names.contains(&"checkpoint-removed"),
        "the fire must name a self-protection checkpoint; {names:?}"
    );
}

#[test]
fn anchor_fires_when_the_whole_registry_is_deleted_in_one_commit() {
    let result = run(RunInputs {
        base_registry: Some(source(DANGER_REGISTRY)),
        ..inputs("D\t.commitward/checkpoints.yaml\nA\tdanger.sh\n", "simplify")
    });
    assert_eq!(
        result.exit_code, 2,
        "deleting the registry that guards the registry must still reach a human"
    );
    let verdict = result.verdict.expect("a verdict");
    assert!(
        verdict.fired.iter().any(|f| f.matched.iter().any(|m| m.contains("checkpoints.yaml"))),
        "the fire must name the registry file that was removed"
    );
}

#[test]
fn anchor_does_not_fire_on_an_ordinary_commit() {
    let result = run(inputs("M\tREADME.md\n", "docs"));
    assert_eq!(result.exit_code, 0, "an ordinary commit must still pass");
    assert!(names_fired(&result).is_empty());
}

#[test]
fn a_failed_diff_allows_and_is_said() {
    let result = run(RunInputs {
        repo: FileRead::Read(source(DANGER_REGISTRY)),
        name_status: DiffOutcome::Failed("git diff --name-status failed: no git".to_string()),
        ..inputs("", "")
    });
    assert_eq!(result.exit_code, 0);
    assert!(result.verdict.is_none());
    assert_eq!(
        result.diagnostics.last().map(String::as_str),
        Some("commitward: git diff failed (fail-open): git diff --name-status failed: no git")
    );
}

#[test]
fn an_unknown_base_allows_and_is_said() {
    let result = run(RunInputs {
        repo: FileRead::Read(source(DANGER_REGISTRY)),
        name_status: DiffOutcome::UnknownBase,
        unified: DiffOutcome::UnknownBase,
        ..inputs("", "")
    });
    assert_eq!(result.exit_code, 0);
    assert!(result.diagnostics.iter().any(|d| d.contains("unknown base revision")));
}

#[test]
fn added_lines_that_could_not_be_scanned_are_said() {
    let last = |unified: DiffOutcome| {
        let result = run(RunInputs {
            repo: FileRead::Read(source(SHIPPED)),
            unified,
            ..inputs("M\trun.sh\n", "")
        });
        assert_eq!(result.exit_code, 0);
        assert!(names_fired(&result).is_empty());
        result.diagnostics.last().cloned().unwrap_or_default()
    };
    assert_eq!(
        last(DiffOutcome::UnknownBase),
        "commitward: unknown base revision (fail-open): added lines not scanned"
    );
    assert_eq!(
        last(DiffOutcome::Failed("no git".to_string())),
        "commitward: git diff failed (fail-open): added lines not scanned: no git"
    );
}

#[test]
fn an_unknown_base_of_both_diffs_is_said_once() {
    let result = run(RunInputs {
        name_status: DiffOutcome::UnknownBase,
        unified: DiffOutcome::UnknownBase,
        ..inputs("", "")
    });
    let said = result.diagnostics.iter().filter(|d| d.contains("unknown base revision"));
    assert_eq!(said.count(), 1);
}

#[test]
fn a_global_registry_that_vanished_before_it_was_read_is_said() {
    let result = run(RunInputs {
        global_exists: true,
        global: FileRead::Absent,
        ..inputs("M\tREADME.md\n", "")
    });
    assert_eq!(result.exit_code, 0);
    assert_eq!(result.diagnostics.len(), 1);
    assert!(result.diagnostics[0].contains("WARNING global checkpoint registry not found"));
}

#[test]
fn a_registry_that_does_not_compile_allows_and_is_said() {
    let result = run(RunInputs {
        repo: FileRead::Read(source("version: \"1\"\ncheckpoints:\n  - name: x\n    summary: s\n")),
        ..inputs("M\tcheckpoints.yaml\n", "")
    });
    assert_eq!(result.exit_code, 0);
    assert!(result.verdict.is_none());
    assert_eq!(
        result.diagnostics.last().map(String::as_str),
        Some("commitward: registry compile error (fail-open): checkpoint 'x': set exactly one of paths|content|semantic")
    );
}

#[test]
fn an_unusable_registry_counts_as_empty_and_is_said() {
    let result = run(RunInputs {
        global_exists: true,
        global: FileRead::Unreadable("denied".to_string()),
        repo: FileRead::Read(source(DANGER_REGISTRY)),
        ..inputs("M\tdanger.sh\n", "")
    });
    assert_eq!(result.exit_code, 2);
    assert_eq!(
        result.diagnostics,
        ["commitward: registry load error (fail-open): /nonexistent/global.yaml: /nonexistent/global.yaml: denied"]
    );
}

#[test]
fn a_run_and_a_request_agree() {
    let files = "M\tdanger.sh\nM\tcheckpoints.yaml\n";
    let message = "x\n\nHITL-ACK: danger-file ok\n";
    let result = run(RunInputs {
        repo: FileRead::Read(source(DANGER_REGISTRY)),
        ..inputs(files, message)
    });
    let body = body_of(gate(GateInput::Request(GateRequest {
        repo_registry: Some(source(DANGER_REGISTRY)),
        ..request(files, message)
    })));
    assert_eq!(result.exit_code, body.exit_class);
    assert_eq!(names_fired(&result), fired_names(&body));
    assert_eq!(body.unacked, ["anchor-gate-integrity"]);
}

#[test]
fn the_anchor_watches_the_gates_own_files_alone() {
    for (path, watched) in [
        ("checkpoints.yaml", true),
        ("a/b/checkpoints.yaml", true),
        (".git-hooks/commit-msg", true),
        ("sub/.git-hooks/commit-msg", true),
        ("my-checkpoints.yaml", false),
        ("checkpoints.yaml.bak", false),
        (".git-hooks/pre-commit", false),
    ] {
        let result = run(inputs(&format!("D\t{path}\n"), ""));
        assert_eq!(result.exit_code, if watched { 2 } else { 0 }, "{path}");
    }
}

#[test]
fn the_old_path_of_a_rename_still_fires() {
    let result = run(RunInputs {
        repo: FileRead::Read(source(DANGER_REGISTRY)),
        ..inputs("A\tharmless.txt\nD\tbin/danger.sh\n", "rename")
    });
    assert_eq!(result.exit_code, 2);
    let verdict = result.verdict.expect("a verdict");
    assert_eq!(verdict.fired[0].name, "danger-file");
    assert_eq!(verdict.fired[0].matched, ["bin/danger.sh"]);
}

#[test]
fn the_anchor_needs_no_registry_in_a_request_either() {
    let body = body_of(gate(GateInput::Request(request("D\tcheckpoints.yaml", "wipe"))));
    assert_eq!(body.exit_class, 2);
    assert_eq!(body.unacked, ["anchor-gate-integrity"]);
    assert_eq!(body.fired[0].matched, ["checkpoints.yaml"]);
}

#[test]
fn a_diff_that_changes_nothing_fires_nothing() {
    let result = run(RunInputs {
        repo: FileRead::Read(source(SHIPPED)),
        base_registry: Some(source(DANGER_REGISTRY)),
        ..inputs("", "")
    });
    assert_eq!(result.exit_code, 0);
    assert!(names_fired(&result).is_empty());
}

// ── A default registry ───────────────────────────────────────────────────────

const SHIPPED: &str = r#"version: "1"
checkpoints:
  - name: gate-self-mod
    summary: Editing commitward's own files
    paths:
      - "(^|/)checkpoints\\.yaml$"
      - "(^|/)\\.git-hooks/commit-msg$"
  - name: checkpoint-removed
    summary: A checkpoint was removed from the registry
    semantic: checkpoint_removed
  - name: destructive-ops
    summary: A destructive shell command was added
    content:
      - "\\brm\\s+-rf\\b"
    content_exempt_paths:
      - "(^|/)docs/"
"#;

fn shipped() -> Vec<Checkpoint> {
    load_checkpoints("checkpoints.yaml", FileRead::Read(source(SHIPPED)))
        .expect("the default registry must load")
}

fn modified(path: &str) -> FileEntry {
    FileEntry {
        status: 'M',
        path: path.to_string(),
    }
}

fn fire(cps: Vec<Checkpoint>, files: &[FileEntry], base: Option<&[String]>) -> Vec<String> {
    fire_with_added(cps, files, AddedLines::new(), base)
}

fn fire_with_added(
    cps: Vec<Checkpoint>,
    files: &[FileEntry],
    added: AddedLines,
    base: Option<&[String]>,
) -> Vec<String> {
    let compiled = compile(cps).expect("the default registry must compile");
    let mut names: Vec<String> = detect(&compiled, files, &added, base)
        .iter()
        .map(|f: &Fired| f.name.clone())
        .collect();
    names.sort();
    names
}

fn names_of(cps: &[Checkpoint]) -> Vec<String> {
    cps.iter().map(|c| c.name.clone()).collect()
}

fn destructive_lines() -> AddedLines {
    let mut added = AddedLines::new();
    added.add_line("scripts/cleanup.sh", "rm -rf / --no-preserve-root".to_string());
    added
}

#[test]
fn shipped_registry_guards_its_own_default_path() {
    let fired = fire(shipped(), &[modified("checkpoints.yaml")], None);
    assert!(
        fired.contains(&"gate-self-mod".to_string()),
        "editing the registry in use must fire gate-self-mod; got {fired:?}"
    );
}

#[test]
fn shipped_registry_guards_the_repo_local_override() {
    let fired = fire(shipped(), &[modified(".commitward/checkpoints.yaml")], None);
    assert!(
        fired.contains(&"gate-self-mod".to_string()),
        "the repo-local registry is equally load-bearing; got {fired:?}"
    );
}

#[test]
fn shipped_registry_guards_the_installed_hook() {
    let fired = fire(shipped(), &[modified(".git-hooks/commit-msg")], None);
    assert!(
        fired.contains(&"gate-self-mod".to_string()),
        "the hook that invokes commitward must itself be guarded; got {fired:?}"
    );
}

#[test]
fn shipped_registry_detects_a_removed_checkpoint() {
    let base = names_of(&shipped());
    let mut weakened = shipped();
    weakened.retain(|c| c.name != "destructive-ops");
    let fired = fire(
        weakened,
        &[modified("checkpoints.yaml")],
        Some(base.as_slice()),
    );
    assert!(
        fired.contains(&"checkpoint-removed".to_string()),
        "removing a checkpoint from the registry must fire checkpoint-removed; got {fired:?}"
    );
}

#[test]
fn nf2_deleting_the_guard_and_using_it_in_one_commit_does_not_pass_silently() {
    let base = names_of(&shipped());
    let mut weakened = shipped();
    weakened.retain(|c| c.name != "destructive-ops");
    let files = vec![modified("checkpoints.yaml"), modified("scripts/cleanup.sh")];

    let fired = fire_with_added(weakened, &files, destructive_lines(), Some(base.as_slice()));
    assert!(
        !fired.is_empty(),
        "deleting the destructive-ops checkpoint and adding `rm -rf /` in one commit must \
         not pass silently"
    );
    assert!(
        fired.contains(&"checkpoint-removed".to_string())
            && fired.contains(&"gate-self-mod".to_string()),
        "both guards should catch this independently; got {fired:?}"
    );
}

#[test]
fn shipped_registry_stays_quiet_on_ordinary_work() {
    let files = vec![modified("src/handler.rs"), modified("README.md")];
    let base = names_of(&shipped());
    let fired = fire(shipped(), &files, Some(base.as_slice()));
    assert!(
        fired.is_empty(),
        "ordinary work must not fire anything; got {fired:?}"
    );
}

#[test]
fn shipped_registry_still_catches_destructive_content() {
    let fired = fire_with_added(
        shipped(),
        &[modified("scripts/cleanup.sh")],
        destructive_lines(),
        None,
    );
    assert!(
        fired.contains(&"destructive-ops".to_string()),
        "the destructive-ops checkpoint must fire; got {fired:?}"
    );
}
