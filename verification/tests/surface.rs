use commitward::baseline::base_names;
use commitward::cli::{
    base_revision, diff_base, early_exit, parse_args, registry_in_repo, registry_place,
    switched_off, Format, Invocation, RegistryPlace,
};
use commitward::git::{
    diff_args, diff_outcome, log_args, printed, show_args, toplevel, DiffMode, DiffOutcome,
};
use commitward::report::{render_markdown, render_text, to_decimal};
use commitward::verdict::judge;
use commitward::{Ack, Checkpoint, Fired, RegistrySource};

fn args(words: &[&str]) -> Vec<String> {
    let mut all = vec!["commitward".to_string()];
    all.extend(words.iter().map(|w| w.to_string()));
    all
}

fn usage(words: &[&str]) -> String {
    match parse_args(&args(words)) {
        Invocation::Usage(why) => why,
        other => panic!("a usage error, not {other:?}"),
    }
}

// ── Command line ─────────────────────────────────────────────────────────────

#[test]
fn defaults() {
    match parse_args(&args(&[])) {
        Invocation::Native(options) => {
            assert_eq!(options.base_ref, "origin/main");
            assert!(!options.cached);
            assert_eq!(options.commit_msg_file, None);
            assert_eq!(options.registry, None);
            assert_eq!(options.repo_registry, None);
            assert_eq!(options.format, Format::Text);
            assert_eq!(diff_base(&options), Some("origin/main"));
            assert_eq!(base_revision(&options), "origin/main");
        }
        other => panic!("a run, not {other:?}"),
    }
}

#[test]
fn all_flags() {
    let words = [
        "--base", "v1", "--cached", "--commit-msg-file", "m", "--registry", "g",
        "--repo-registry", "r", "--format", "text", "--format", "markdown", "--base", "v2",
    ];
    match parse_args(&args(&words)) {
        Invocation::Native(options) => {
            assert_eq!(options.base_ref, "v2");
            assert!(options.cached);
            assert_eq!(options.commit_msg_file.as_deref(), Some("m"));
            assert_eq!(options.registry.as_deref(), Some("g"));
            assert_eq!(options.repo_registry.as_deref(), Some("r"));
            assert_eq!(options.format, Format::Markdown);
            assert_eq!(diff_base(&options), None);
            assert_eq!(base_revision(&options), "HEAD");
        }
        other => panic!("a run, not {other:?}"),
    }
}

#[test]
fn wrong_command_lines_say_why() {
    assert_eq!(usage(&["--nope"]), "unknown flag '--nope'");
    assert_eq!(usage(&["--base"]), "--base requires an argument");
    assert_eq!(usage(&["--cached", "--format"]), "--format requires an argument");
    assert_eq!(usage(&["--format", "xml"]), "unknown format 'xml' (text|json|markdown)");
    assert_eq!(usage(&["--cached", "gate"]), "unknown flag 'gate'");
}

#[test]
fn help_and_requests_come_first() {
    assert!(matches!(parse_args(&args(&["--cached", "-h", "--nope"])), Invocation::Help));
    assert!(matches!(parse_args(&args(&["--nope", "--help"])), Invocation::Usage(_)));
    assert!(matches!(parse_args(&args(&["gate", "--nope"])), Invocation::Gate));
    assert!(matches!(parse_args(&[]), Invocation::Native(_)));
}

#[test]
fn exits_before_a_run() {
    let run = parse_args(&args(&[]));
    let wrong = parse_args(&args(&["--nope"]));
    let help = parse_args(&args(&["--help"]));
    let request = parse_args(&args(&["gate"]));
    assert_eq!(early_exit(&run, false), None);
    assert_eq!(early_exit(&wrong, false), Some(64));
    assert_eq!(early_exit(&help, false), Some(0));
    assert_eq!(early_exit(&request, false), None);
    assert_eq!(early_exit(&run, true), Some(0));
    assert_eq!(early_exit(&wrong, true), Some(0));
    assert_eq!(early_exit(&help, true), Some(0));
    assert_eq!(early_exit(&request, true), None);
}

#[test]
fn the_off_switch_is_one_word() {
    assert!(switched_off(Some("off")));
    assert!(!switched_off(Some("OFF")));
    assert!(!switched_off(Some("")));
    assert!(!switched_off(None));
}

#[test]
fn the_global_registry_is_looked_for_in_turn() {
    let some = |s: &str| Some(s.to_string());
    assert!(matches!(registry_place(some("f"), some("v"), some("d")), RegistryPlace::At(p) if p == "f"));
    assert!(matches!(registry_place(None, some("v"), some("d")), RegistryPlace::At(p) if p == "v"));
    assert!(matches!(registry_place(None, None, some("d")), RegistryPlace::In(p) if p == "d"));
    assert!(matches!(registry_place(None, None, None), RegistryPlace::Here));
}

#[test]
fn the_registry_in_the_repository() {
    assert_eq!(registry_in_repo(Some("conf/c.yaml".to_string())), "conf/c.yaml");
    assert_eq!(registry_in_repo(None), ".commitward/checkpoints.yaml");
}

// ── Git ──────────────────────────────────────────────────────────────────────

#[test]
fn git_commands() {
    assert_eq!(
        diff_args(Some("origin/main"), DiffMode::NameStatus),
        [
            "-c", "core.quotePath=false", "diff", "--name-status", "--diff-filter=ACDMRT",
            "--no-renames", "origin/main..HEAD",
        ]
    );
    assert_eq!(diff_args(None, DiffMode::Unified)[3], "--unified=0");
    assert_eq!(diff_args(None, DiffMode::Unified)[6], "--cached");
    assert_eq!(show_args("HEAD", "a/b.yaml"), ["show", "HEAD:a/b.yaml"]);
    assert_eq!(log_args("v1"), ["log", "--format=%B", "v1..HEAD"]);
}

#[test]
fn what_the_end_of_a_diff_means() {
    let end = |success, stderr: &str| {
        diff_outcome(DiffMode::NameStatus, success, "out".to_string(), stderr)
    };
    assert!(matches!(end(true, "warning: bad revision"), DiffOutcome::Printed(o) if o == "out"));
    assert!(matches!(end(false, "fatal: bad revision 'x'"), DiffOutcome::UnknownBase));
    assert!(matches!(
        end(false, "fatal: ambiguous argument: unknown revision or path"),
        DiffOutcome::UnknownBase
    ));
    assert!(matches!(
        end(false, "\n fatal: not a repository \u{85}\n"),
        DiffOutcome::Failed(why) if why == "git diff --name-status failed: fatal: not a repository"
    ));
}

#[test]
fn what_commands_printed() {
    assert_eq!(toplevel(true, "/repo\n").as_deref(), Some("/repo"));
    assert_eq!(toplevel(true, " \n"), None);
    assert_eq!(toplevel(false, "/repo\n"), None);
    assert_eq!(printed(true, "x".to_string()).as_deref(), Some("x"));
    assert_eq!(printed(false, "x".to_string()), None);
}

// ── Reports ──────────────────────────────────────────────────────────────────

fn fire(name: &str, matched: &[&str]) -> Fired {
    Fired {
        name: name.to_string(),
        summary: format!("about {name}"),
        matched: matched.iter().map(|m| m.to_string()).collect(),
    }
}

fn ack(name: &str) -> Ack {
    Ack {
        name: name.to_string(),
        reason: String::new(),
    }
}

#[test]
fn numbers_in_decimal() {
    for n in [0usize, 7, 9, 10, 99, 100, 1234567890, usize::MAX] {
        assert_eq!(to_decimal(n), n.to_string());
    }
}

#[test]
fn reports_of_nothing() {
    let quiet = judge(vec![], &[]);
    assert_eq!(render_text(&quiet), "No checkpoints fired.\n");
    assert_eq!(render_markdown(&quiet), "## HITL Checkpoints\n\nNo checkpoints fired.\n");
}

#[test]
fn reports_of_fires() {
    let verdict = judge(
        vec![fire("a", &["x", "y"]), fire("b", &["z"]), fire("c", &["w"])],
        &[ack("b")],
    );
    assert_eq!(
        render_text(&verdict),
        "3 checkpoint(s) fired — 2 unacked, 1 acked\n  UNACKED  a — about a\n             matched: x\n             matched: y\n  UNACKED  c — about c\n             matched: w\n  acked    b — about b\n"
    );
    assert_eq!(
        render_markdown(&verdict),
        "## HITL Checkpoints\n\n**3 fired — 2 unacked, 1 acked**\n\n### Unacknowledged (2)\n\n- **a** — about a\n  - Matched: `x`\n  - Matched: `y`\n- **c** — about c\n  - Matched: `w`\n"
    );
}

#[test]
fn a_report_of_acknowledged_fires_alone() {
    let verdict = judge(vec![fire("a", &["x"])], &[ack("a")]);
    assert_eq!(
        render_text(&verdict),
        "1 checkpoint(s) fired — 0 unacked, 1 acked\n  acked    a — about a\n"
    );
    assert_eq!(
        render_markdown(&verdict),
        "## HITL Checkpoints\n\n**1 fired — 0 unacked, 1 acked**\n\n"
    );
}

// ── Names at the base ────────────────────────────────────────────────────────

fn registry(names: &[&str]) -> RegistrySource {
    RegistrySource {
        text: "checkpoints: ...".to_string(),
        parsed: Ok(names
            .iter()
            .map(|name| Checkpoint {
                name: name.to_string(),
                summary: String::new(),
                standards_doc: None,
                paths: vec![],
                content: vec![],
                content_exempt_paths: vec![],
                semantic: None,
            })
            .collect()),
    }
}

#[test]
fn base_names_are_united_in_order_each_once() {
    let names = base_names(&Some(registry(&["b", "a", "ab", "b"])), &Some(registry(&["é", "a", "B"])));
    assert_eq!(
        names.expect("supplied"),
        ["B", "a", "ab", "b", "é"]
    );
    assert_eq!(base_names(&None, &Some(registry(&["x"]))).expect("supplied"), ["x"]);
    assert_eq!(base_names(&Some(registry(&["x"])), &None).expect("supplied"), ["x"]);
    assert!(base_names(&None, &None).is_none());
}

#[test]
fn base_names_of_an_empty_or_unparsed_registry_are_none() {
    let empty = RegistrySource {
        text: String::new(),
        ..registry(&["ignored"])
    };
    assert!(base_names(&Some(empty), &None).expect("supplied").is_empty());
    let unparsed = RegistrySource {
        text: "x".to_string(),
        parsed: Err("no".to_string()),
    };
    assert!(base_names(&None, &Some(unparsed)).expect("supplied").is_empty());
}
