use commitward::{
    compile, detect, extract_checkpoint_names, load_checkpoints, merge, AddedLines, Checkpoint,
    CheckpointError, FileEntry, FileRead, Mode, RegistrySource, SemanticKind,
};
use serde_yaml::Value;

// ── Reading YAML ─────────────────────────────────────────────────────────────

fn text_at(entry: &Value, key: &str) -> Result<String, String> {
    let value = entry.get(key).and_then(Value::as_str);
    value.map(str::to_string).ok_or_else(|| format!("missing field `{key}`"))
}

fn texts_at(entry: &Value, key: &str) -> Vec<String> {
    let items = entry.get(key).and_then(Value::as_sequence).cloned().unwrap_or_default();
    items.iter().filter_map(Value::as_str).map(str::to_string).collect()
}

fn parse(text: &str) -> Result<Vec<Checkpoint>, String> {
    let root: Value = serde_yaml::from_str(text).map_err(|e| e.to_string())?;
    text_at(&root, "version")?;
    let entries = root.get("checkpoints").and_then(Value::as_sequence).ok_or("no checkpoints")?;
    entries
        .iter()
        .map(|entry| {
            Ok(Checkpoint {
                name: text_at(entry, "name")?,
                summary: text_at(entry, "summary")?,
                standards_doc: text_at(entry, "standards_doc").ok(),
                paths: texts_at(entry, "paths"),
                content: texts_at(entry, "content"),
                content_exempt_paths: texts_at(entry, "content_exempt_paths"),
                semantic: text_at(entry, "semantic").ok(),
            })
        })
        .collect()
}

fn source(text: &str) -> RegistrySource {
    RegistrySource {
        text: text.to_string(),
        parsed: parse(text),
    }
}

// ── Checkpoints ──────────────────────────────────────────────────────────────

fn bare(name: &str) -> Checkpoint {
    Checkpoint {
        name: name.to_string(),
        summary: format!("about {name}"),
        standards_doc: None,
        paths: vec![],
        content: vec![],
        content_exempt_paths: vec![],
        semantic: None,
    }
}

fn path_cp(name: &str, summary: &str, pattern: &str) -> Checkpoint {
    Checkpoint {
        summary: summary.to_string(),
        paths: vec![pattern.to_string()],
        ..bare(name)
    }
}

fn compile_err(cp: Checkpoint) -> CheckpointError {
    match compile(vec![cp]) {
        Ok(_) => panic!("must not compile"),
        Err(e) => e,
    }
}

// ── Loading ──────────────────────────────────────────────────────────────────

#[test]
fn load_absent_returns_empty() {
    let absent = "/nonexistent/no/such/path/checkpoints.yaml";
    let result = load_checkpoints(absent, FileRead::Absent).expect("absent file returns Ok");
    assert!(result.is_empty());
}

#[test]
fn load_malformed_returns_parse_error() {
    let read = FileRead::Read(source("not: valid: yaml: [\n"));
    assert!(matches!(
        load_checkpoints("checkpoints.yaml", read),
        Err(CheckpointError::Parse(_, _))
    ));
}

#[test]
fn load_gives_what_was_parsed() {
    let read = FileRead::Read(source(
        "version: \"1\"\ncheckpoints:\n  - name: a\n    summary: s\n    standards_doc: d.md\n    paths: [x, y]\n",
    ));
    let cps = load_checkpoints("checkpoints.yaml", read).expect("parses");
    assert_eq!(cps.len(), 1);
    assert_eq!(cps[0].name, "a");
    assert_eq!(cps[0].standards_doc.as_deref(), Some("d.md"));
    assert_eq!(cps[0].paths, ["x", "y"]);
}

#[test]
fn an_unreadable_file_is_an_error_that_names_it() {
    let read = FileRead::Unreadable("permission denied".to_string());
    match load_checkpoints("etc/checkpoints.yaml", read) {
        Err(e) => assert_eq!(e.message(), "etc/checkpoints.yaml: permission denied"),
        Ok(_) => panic!("must not load"),
    }
}

#[test]
fn extract_checkpoint_names_parses_names() {
    let yaml = r#"version: "1"
checkpoints:
  - name: guard-a
    summary: Guards A
    paths:
      - "(^|/)a.txt$"
  - name: guard-b
    summary: Guards B
    paths:
      - "(^|/)b.txt$"
  - name: checkpoint-removed
    summary: Checkpoint removed
    semantic: checkpoint_removed
"#;

    let names = extract_checkpoint_names(&source(yaml));
    assert_eq!(
        names.len(),
        3,
        "expected 3 names, got {}: {names:?}",
        names.len()
    );
    assert!(names.contains(&"guard-a".to_string()));
    assert!(names.contains(&"guard-b".to_string()));
    assert!(names.contains(&"checkpoint-removed".to_string()));

    // Empty input → empty vec.
    assert!(extract_checkpoint_names(&source("")).is_empty());
    // Unparseable → empty vec, no panic.
    assert!(extract_checkpoint_names(&source("not: valid: yaml: [\n")).is_empty());
}

// ── Merging ──────────────────────────────────────────────────────────────────

#[test]
fn merge_repo_overrides_global() {
    let global = vec![
        path_cp("a", "global-a", "(^|/)a$"),
        path_cp("b", "global-b", "(^|/)b$"),
    ];
    let repo = vec![path_cp("a", "repo-a", "(^|/)repo_a$")];
    let merged = merge(global, repo);
    assert_eq!(merged.len(), 2);
    assert_eq!(merged[0].name, "a");
    assert_eq!(merged[0].summary, "repo-a");
    assert_eq!(merged[1].name, "b");
}

#[test]
fn merge_repo_extends_global() {
    let global = vec![path_cp("g", "global", "(^|/)g$")];
    let repo = vec![path_cp("r", "repo-only", "(^|/)r$")];
    let merged = merge(global, repo);
    assert_eq!(merged.len(), 2);
    assert_eq!(merged[0].name, "g");
    assert_eq!(merged[1].name, "r");
}

#[test]
fn merging_with_nothing_changes_nothing() {
    let cps = || vec![path_cp("a", "one", "x"), path_cp("b", "two", "y")];
    for merged in [merge(cps(), vec![]), merge(vec![], cps())] {
        let names: Vec<&str> = merged.iter().map(|c| c.name.as_str()).collect();
        assert_eq!(names, ["a", "b"]);
        assert_eq!(merged[1].summary, "two");
    }
}

#[test]
fn of_two_repo_entries_with_one_name_the_last_replaces_the_global_one() {
    let merged = merge(
        vec![path_cp("a", "global", "x")],
        vec![path_cp("a", "first", "x"), path_cp("a", "last", "x")],
    );
    assert_eq!(merged.len(), 1);
    assert_eq!(merged[0].summary, "last");
}

// ── Compiling ────────────────────────────────────────────────────────────────

#[test]
fn ambiguous_mode_rejected() {
    let cp = Checkpoint {
        summary: "test".to_string(),
        paths: vec!["(^|/)foo$".to_string()],
        content: vec!["bar".to_string()],
        ..bare("both")
    };
    assert!(matches!(
        compile(vec![cp]),
        Err(CheckpointError::AmbiguousMode(_))
    ));
}

#[test]
fn unknown_semantic_rejected() {
    let cp = Checkpoint {
        summary: "test".to_string(),
        semantic: Some("totally_unknown".to_string()),
        ..bare("sem")
    };
    assert!(matches!(
        compile(vec![cp]),
        Err(CheckpointError::UnknownSemantic(_, _))
    ));
}

#[test]
fn no_mode_at_all_is_ambiguous_too() {
    assert_eq!(
        compile_err(bare("none")).message(),
        "checkpoint 'none': set exactly one of paths|content|semantic"
    );
}

#[test]
fn an_unknown_semantic_is_named() {
    let cp = Checkpoint {
        semantic: Some("nope".to_string()),
        ..bare("sem")
    };
    assert_eq!(
        compile_err(cp).message(),
        "checkpoint 'sem': unknown semantic 'nope'"
    );
}

#[test]
fn a_pattern_that_does_not_compile_is_reported_with_its_reason() {
    // Look-around is not part of the pattern language.
    let message = compile_err(path_cp("look", "s", "a(?=b)")).message();
    assert!(message.starts_with("checkpoint 'look': pattern: "), "{message}");
    assert!(message.contains("look-around"), "{message}");
}

#[test]
fn the_first_checkpoint_that_does_not_compile_gives_the_error() {
    let cps = vec![path_cp("good", "s", "x"), bare("first"), path_cp("later", "s", "(")];
    match compile(cps) {
        Err(CheckpointError::AmbiguousMode(name)) => assert_eq!(name, "first"),
        _ => panic!("the first error counts"),
    }
}

#[test]
fn exemptions_compile_with_content_alone() {
    let bad = vec!["(".to_string()];
    let with_content = Checkpoint {
        content: vec!["x".to_string()],
        content_exempt_paths: bad.clone(),
        ..bare("c")
    };
    assert!(matches!(compile_err(with_content), CheckpointError::Regex(_, _)));
    let with_paths = Checkpoint {
        content_exempt_paths: bad,
        ..path_cp("p", "s", "x")
    };
    assert!(compile(vec![with_paths]).is_ok());
}

#[test]
fn compiling_keeps_names_documents_and_order() {
    let semantic = Checkpoint {
        standards_doc: Some("doc.md".to_string()),
        semantic: Some("checkpoint_removed".to_string()),
        ..bare("s")
    };
    let compiled = compile(vec![semantic, path_cp("p", "about", "x")]).expect("compiles");
    assert_eq!(compiled.len(), 2);
    assert_eq!(compiled[0].name, "s");
    assert_eq!(compiled[0].standards_doc.as_deref(), Some("doc.md"));
    assert!(matches!(compiled[0].mode, Mode::Semantic(SemanticKind::CheckpointRemoved)));
    assert_eq!(compiled[1].summary, "about");
    match &compiled[1].mode {
        Mode::Path(patterns) => assert_eq!(patterns[0].source(), "x"),
        _ => panic!("a path mode"),
    }
}

// ── Detection ────────────────────────────────────────────────────────────────

fn modified(path: &str) -> FileEntry {
    FileEntry {
        status: 'M',
        path: path.to_string(),
    }
}

#[test]
fn residual_gap_adr0010_checkpoint_removed_itself_removed() {
    // When the checkpoint-removed entry is itself removed, no check remains that
    // could see what else was.
    let base_names = vec![
        "guard-a".to_string(),
        "guard-b".to_string(),
        "checkpoint-removed".to_string(),
    ];
    let guard_a_cp = path_cp("guard-a", "Guards A", "(^|/)a\\.txt$");
    let compiled = compile(vec![guard_a_cp]).expect("compile guard-a");
    let files = vec![modified(".dotclaude/checkpoints.yaml")];

    let fired = detect(&compiled, &files, &AddedLines::new(), Some(&base_names));
    assert!(
        fired.iter().all(|f| f.name != "checkpoint-removed"),
        "checkpoint-removed must not fire when its own entry was removed; fired: {fired:?}"
    );
}

#[test]
fn patterns_ignore_case_and_match_anywhere() {
    let compiled = compile(vec![path_cp("p", "about p", "SECRET")]).expect("compiles");
    let files = vec![modified("a/my-secrets.txt"), modified("b.txt"), modified("c/Secret")];
    let fired = detect(&compiled, &files, &AddedLines::new(), None);
    assert_eq!(fired.len(), 1);
    assert_eq!(fired[0].name, "p");
    assert_eq!(fired[0].summary, "about p");
    assert_eq!(fired[0].matched, ["a/my-secrets.txt", "c/Secret"]);
}

#[test]
fn content_looks_at_added_lines_of_files_that_are_not_exempt() {
    let cp = Checkpoint {
        content: vec!["rm\\s+-rf".to_string()],
        content_exempt_paths: vec!["(^|/)docs/".to_string()],
        ..bare("destructive")
    };
    let compiled = compile(vec![cp]).expect("compiles");
    let files = vec![
        modified("run.sh"),
        modified("docs/guide.md"),
        modified("quiet.sh"),
        modified("untouched.sh"),
    ];
    let mut added = AddedLines::new();
    added.add_line("run.sh", "echo hi".to_string());
    added.add_line("run.sh", "RM  -rf /tmp/x".to_string());
    added.add_line("docs/guide.md", "rm -rf /".to_string());
    added.add_line("quiet.sh", "ls".to_string());
    // Added lines of a file that is not among the changed ones do not count.
    added.add_line("elsewhere.sh", "rm -rf /".to_string());
    let fired = detect(&compiled, &files, &added, None);
    assert_eq!(fired.len(), 1);
    assert_eq!(fired[0].matched, ["run.sh"]);
}

#[test]
fn removal_fires_only_with_a_base_and_a_touched_registry() {
    let guard = || {
        let cp = Checkpoint {
            semantic: Some("checkpoint_removed".to_string()),
            ..bare("guard")
        };
        compile(vec![cp]).expect("compiles")
    };
    let base: Vec<String> = ["gone", "guard", "lost"].iter().map(|n| n.to_string()).collect();
    let registry = vec![modified("conf/checkpoints.yaml")];
    let none = AddedLines::new();

    let fired = detect(&guard(), &registry, &none, Some(&base));
    assert_eq!(fired.len(), 1);
    assert_eq!(fired[0].matched, ["gone", "lost"]);

    assert!(detect(&guard(), &registry, &none, None).is_empty());
    assert!(detect(&guard(), &[modified("a.rs")], &none, Some(&base)).is_empty());
    assert!(detect(&guard(), &registry, &none, Some(&["guard".to_string()])).is_empty());
}

#[test]
fn there_is_one_fire_for_each_checkpoint_in_order() {
    let cps = vec![
        path_cp("second-file", "s", "b"),
        path_cp("quiet", "s", "zzz"),
        path_cp("all", "s", "."),
    ];
    let compiled = compile(cps).expect("compiles");
    let fired = detect(&compiled, &[modified("a"), modified("b")], &AddedLines::new(), None);
    let names: Vec<&str> = fired.iter().map(|f| f.name.as_str()).collect();
    assert_eq!(names, ["second-file", "all"]);
    assert_eq!(fired[1].matched, ["a", "b"]);
}
