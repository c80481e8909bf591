use commitward::gitdiff::{parse_added_lines, parse_name_status};

#[test]
fn name_status_parses_status_and_path() {
    let out = "M\tsrc/a.rs\nA\tsrc/b.rs\nD\told.rs\n";
    let v = parse_name_status(out);
    assert_eq!(v.len(), 3);
    assert_eq!(v[0].status, 'M');
    assert_eq!(v[0].path, "src/a.rs");
    assert_eq!(v[1].status, 'A');
    assert_eq!(v[2].status, 'D');
}

#[test]
fn name_status_rename_takes_new_path() {
    // With `--no-renames` git never emits such a line; fed one, the parser takes the
    // new path.
    let out = "R100\tsrc/old.rs\tsrc/new.rs\n";
    let v = parse_name_status(out);
    assert_eq!(v.len(), 1);
    assert_eq!(v[0].status, 'R');
    assert_eq!(v[0].path, "src/new.rs");
}

#[test]
fn added_lines_grouped_by_file_excluding_plusplus_header() {
    let diff = "\
diff --git a/src/a.rs b/src/a.rs
--- a/src/a.rs
+++ b/src/a.rs
@@ -1,2 +1,3 @@
 keep
+added one
+added two
diff --git a/src/b.rs b/src/b.rs
--- a/src/b.rs
+++ b/src/b.rs
@@ -0,0 +1 @@
+only b
";
    let m = parse_added_lines(diff);
    assert_eq!(
        m.get("src/a.rs").unwrap(),
        &vec!["added one".to_string(), "added two".to_string()]
    );
    assert_eq!(m.get("src/b.rs").unwrap(), &vec!["only b".to_string()]);
    // The `+++ b/...` file header is not an added line.
    assert!(!m
        .get("src/a.rs")
        .unwrap()
        .iter()
        .any(|l| l.contains("b/src/a.rs")));
}

#[test]
fn added_line_starting_with_plusplus_inside_hunk_is_captured_not_skipped() {
    let diff = "\
diff --git a/danger.sh b/danger.sh
--- a/danger.sh
+++ b/danger.sh
@@ -0,0 +1,2 @@
+++ decorative banner
+rm -rf /
";
    let m = parse_added_lines(diff);
    let added = m.get("danger.sh").unwrap();
    assert!(
        added.iter().any(|l| l.contains("rm -rf /")),
        "real added line must be captured"
    );
    assert!(
        added.iter().any(|l| l.contains("decorative banner")),
        "a `+++ `-prefixed line inside a hunk must be captured, not treated as a header"
    );
}

#[test]
fn name_status_skips_what_is_no_entry() {
    let out = "\nM\n \t \nX\t\n\tpath\nA\tok.rs\r\nT  \t a b \t\nD\tlast";
    let v = parse_name_status(out);
    let got: Vec<(char, &str)> = v.iter().map(|e| (e.status, e.path.as_str())).collect();
    assert_eq!(got, [('A', "ok.rs"), ('D', "last")]);
    assert!(parse_name_status("").is_empty());
}

#[test]
fn a_rename_without_rename_detection_keeps_the_old_path() {
    let v = parse_name_status("D\tsecrets/old.pem\nA\tpublic/new.pem\n");
    assert!(v.iter().any(|e| e.status == 'D' && e.path == "secrets/old.pem"));
    assert!(v.iter().any(|e| e.status == 'A' && e.path == "public/new.pem"));
}

#[test]
fn a_deleted_file_has_no_added_lines() {
    let diff = "\
diff --git a/gone.rs b/gone.rs
--- a/gone.rs
+++ /dev/null
@@ -1 +0,0 @@
-old
+odd
diff --git a/x y.rs b/x y.rs
--- a/x y.rs
+++ b/x y.rs\t
@@ -1 +1 @@
-a
+b
";
    let m = parse_added_lines(diff);
    assert!(m.get("gone.rs").is_none());
    assert_eq!(m.get("x y.rs").unwrap(), &vec!["b".to_string()]);
}

#[test]
fn lines_outside_of_any_file_are_dropped() {
    let m = parse_added_lines("+stray\n+++ c/other\n+more\n+++ b/kept\n+one\n++two\n");
    assert!(m.get("other").is_none());
    assert_eq!(m.get("kept").unwrap(), &vec!["one".to_string(), "+two".to_string()]);
}

#[test]
fn additions_of_two_hunks_stay_in_order() {
    let diff = "diff --git a/f b/f\n+++ b/f\n@@ -1 +1 @@\n+1\n+++ 2\n@@ -9 +9 @@\n+3\n";
    let m = parse_added_lines(diff);
    let expected: Vec<String> = ["1", "++ 2", "3"].iter().map(|l| l.to_string()).collect();
    assert_eq!(m.get("f").unwrap(), &expected);
}

#[test]
fn files_are_read_apart() {
    let one = "diff --git a/f b/f\n+++ b/f\n@@ -1 +1 @@\n+1\n";
    let two = "diff --git a/g b/g\n+++ b/g\n@@ -1 +1 @@\n+2\n+++ b/f\n";
    let both = parse_added_lines(&format!("{one}{two}"));
    assert_eq!(both.get("f"), parse_added_lines(one).get("f"));
    assert_eq!(both.get("g"), parse_added_lines(two).get("g"));
    assert_eq!(both.get("g").unwrap(), &vec!["2".to_string(), "++ b/f".to_string()]);
}
