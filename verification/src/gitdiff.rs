//! Parsers that turn `git diff` output into the inputs that `detect` takes.
//!
//! `parse_name_status` reads `git diff --name-status`; `parse_added_lines` reads a
//! unified `git diff`. Both accept any text.

use vstd::prelude::*;

use crate::seqs::lemma_filter_map_has;
use crate::text::{
    all_space, chars_of, is_blank, is_space, lemma_split_at, lemma_split_single, lines, lines_of, same_text, split, split_text, starts_with, string_of,
    trim_end, trimmed_end,
};

verus! {

// ── Changed files ────────────────────────────────────────────────────────────

/// A changed file, as `git diff --name-status` reports it.
#[derive(Debug)]
pub struct FileEntry {
    /// Status character from git (`M`, `A`, `D`, `R`, …).
    pub status: char,
    /// Repository-relative path of the file.
    pub path: String,
}

/// The mathematical value of a `FileEntry`.
#[verifier::ext_equal]
pub struct FileEntryModel {
    pub status: char,
    pub path: Seq<char>,
}

impl DeepView for FileEntry {
    type V = FileEntryModel;

    open spec fn deep_view(&self) -> FileEntryModel {
        FileEntryModel { status: self.status, path: self.path@ }
    }
}

impl Clone for FileEntry {
    fn clone(&self) -> (r: FileEntry)
        ensures
            r.deep_view() == self.deep_view(),
    {
        FileEntry { status: self.status, path: self.path.clone() }
    }
}

/// What a line of `git diff --name-status` says. It is tab-separated: its status is
/// the first character of the first field, its path the last field. A blank line,
/// one with fewer than two fields, an empty status or an empty path says nothing.
pub open spec fn name_status_entry(line: Seq<char>) -> Option<FileEntryModel> {
    let fields = split(line, '\t');
    if all_space(line) || fields.len() < 2 || fields.first().len() == 0 || fields.last().len() == 0 {
        None
    } else {
        Some(FileEntryModel { status: fields.first().first(), path: fields.last() })
    }
}

/// The entries of `git diff --name-status` output, in order.
pub open spec fn name_status_entries(out: Seq<char>) -> Seq<FileEntryModel> {
    lines(out).filter_map(|line: Seq<char>| name_status_entry(line))
}

/// Parses `git diff --name-status` output.
///
/// With `--no-renames` every line has two fields. A rename line
/// `R100\told\tnew` gives the new path.
pub fn parse_name_status(out: &str) -> (r: Vec<FileEntry>)
    ensures
        r.deep_view() == name_status_entries(out@),
{
    let rows = lines_of(out);
    let ghost all = rows.deep_view();
    let ghost f = |line: Seq<char>| name_status_entry(line);
    let mut entries: Vec<FileEntry> = Vec::new();
    let mut i: usize = 0;
    assert(entries.deep_view() =~= all.take(0).filter_map(f));
    while i < rows.len()
        invariant
            all == rows.deep_view(),
            f == |line: Seq<char>| name_status_entry(line),
            i <= rows@.len(),
            entries.deep_view() == all.take(i as int).filter_map(f),
        decreases rows@.len() - i,
    {
        let ghost before = entries.deep_view();
        assert(all.take(i + 1).drop_last() =~= all.take(i as int));
        assert(all.take(i + 1).last() == rows[i as int]@);
        let parsed = parse_name_status_line(rows[i].as_str());
        if let Some(entry) = parsed {
            let ghost added = entry.deep_view();
            entries.push(entry);
            assert(entries.deep_view() =~= before.push(added));
        }
        i += 1;
    }
    assert(all.take(all.len() as int) =~= all);
    entries
}

/// Parses one line of `git diff --name-status`.
fn parse_name_status_line(line: &str) -> (r: Option<FileEntry>)
    ensures
        r.deep_view() == name_status_entry(line@),
{
    if is_blank(&chars_of(line)) {
        return None;
    }
    let fields = split_text(line, '\t');
    let ghost fs = fields.deep_view();
    assert(fs == split(line@, '\t'));
    if fields.len() < 2 {
        return None;
    }
    let head = chars_of(fields[0].as_str());
    assert(head@ == fs.first());
    if head.len() == 0 {
        return None;
    }
    let path = fields[fields.len() - 1].clone();
    assert(path@ == fs.last());
    if path.as_str().is_empty() {
        return None;
    }
    Some(FileEntry { status: head[0], path })
}

// ── Added lines ──────────────────────────────────────────────────────────────

/// The added lines of a diff, grouped by file.
pub struct AddedLines {
    entries: Vec<(String, Vec<String>)>,
}

/// The lines that `entries` holds for each file.
spec fn grouped(entries: Seq<(Seq<char>, Seq<Seq<char>>)>) -> Map<Seq<char>, Seq<Seq<char>>> {
    Map::new(
        |path: Seq<char>| exists|i: int| 0 <= i < entries.len() && (#[trigger] entries[i]).0 == path,
        |path: Seq<char>|
            {
                let i = choose|i: int|
                    0 <= i < entries.len() && (#[trigger] entries[i]).0 == path;
                entries[i].1
            },
    )
}

/// No file has two entries.
spec fn distinct_files(entries: Seq<(Seq<char>, Seq<Seq<char>>)>) -> bool {
    forall|i: int, j: int|
        0 <= i < j < entries.len() ==> (#[trigger] entries[i]).0 != (#[trigger] entries[j]).0
}

impl View for AddedLines {
    type V = Map<Seq<char>, Seq<Seq<char>>>;

    closed spec fn view(&self) -> Map<Seq<char>, Seq<Seq<char>>> {
        grouped(self.entries.deep_view())
    }
}

/// `added` after one more line for `path`.
pub open spec fn with_line(
    added: Map<Seq<char>, Seq<Seq<char>>>,
    path: Seq<char>,
    line: Seq<char>,
) -> Map<Seq<char>, Seq<Seq<char>>> {
    let lines = if added.contains_key(path) {
        added[path]
    } else {
        Seq::empty()
    };
    added.insert(path, lines.push(line))
}

impl AddedLines {
    #[verifier::type_invariant]
    spec fn well_formed(self) -> bool {
        distinct_files(self.entries.deep_view())
    }

    /// No added lines.
    pub fn new() -> (r: AddedLines)
        ensures
            r@ == Map::<Seq<char>, Seq<Seq<char>>>::empty(),
    {
        let r = AddedLines { entries: Vec::new() };
        assert(r@ =~= Map::<Seq<char>, Seq<Seq<char>>>::empty());
        r
    }

    /// The lines added to the file at `path`.
    pub fn get(&self, path: &str) -> (r: Option<&Vec<String>>)
        ensures
            match r {
                Some(lines) => self@.contains_key(path@) && lines.deep_view() == self@[path@],
                None => !self@.contains_key(path@),
            },
    {
        proof {
            use_type_invariant(self);
        }
        let ghost es = self.entries.deep_view();
        let found = find_file(&self.entries, path);
        match found {
            Some(i) => {
                assert(es[i as int].0 == path@);
                Some(&self.entries[i].1)
            },
            None => None,
        }
    }

    /// Adds one line to those of the file at `path`.
    pub fn add_line(&mut self, path: &str, line: String)
        ensures
            final(self)@ == with_line(old(self)@, path@, line@),
    {
        proof {
            use_type_invariant(&*self);
        }
        let ghost before = self.entries.deep_view();
        let ghost text = line@;
        let mut entries: Vec<(String, Vec<String>)> = Vec::new();
        std::mem::swap(&mut entries, &mut self.entries);
        match find_file(&entries, path) {
            Some(i) => {
                let ghost old_lines = entries[i as int].1.deep_view();
                assert(before[i as int].1 == old_lines);
                let entry = &mut entries[i];
                entry.1.push(line);
                assert(entries[i as int].1.deep_view() =~= old_lines.push(text));
                assert(entries.deep_view() =~= before.update(
                    i as int,
                    (path@, old_lines.push(text)),
                ));
            },
            None => {
                let mut fresh: Vec<String> = Vec::new();
                fresh.push(line);
                assert(fresh.deep_view() =~= Seq::<Seq<char>>::empty().push(text));
                entries.push((path.to_owned(), fresh));
                assert(entries.deep_view() =~= before.push(
                    (path@, Seq::<Seq<char>>::empty().push(text)),
                ));
            },
        }
        proof {
            lemma_grouped_with_line(before, entries.deep_view(), path@, text);
        }
        self.entries = entries;
    }
}

/// The index of the entry for `path`.
fn find_file(entries: &Vec<(String, Vec<String>)>, path: &str) -> (r: Option<usize>)
    ensures
        match r {
            Some(i) => i < entries@.len() && entries.deep_view()[i as int].0 == path@,
            None => forall|i: int|
                0 <= i < entries@.len() ==> (#[trigger] entries.deep_view()[i]).0 != path@,
        },
{
    let ghost es = entries.deep_view();
    let mut i: usize = 0;
    while i < entries.len()
        invariant
            es == entries.deep_view(),
            i <= entries@.len(),
            forall|j: int| 0 <= j < i ==> (#[trigger] es[j]).0 != path@,
        decreases entries@.len() - i,
    {
        if same_text(entries[i].0.as_str(), path) {
            assert(es[i as int].0 == path@);
            return Some(i);
        }
        i += 1;
    }
    None
}

/// Appending to the entry of `path`, or giving it one, adds one line to its lines.
proof fn lemma_grouped_with_line(
    before: Seq<(Seq<char>, Seq<Seq<char>>)>,
    after: Seq<(Seq<char>, Seq<Seq<char>>)>,
    path: Seq<char>,
    line: Seq<char>,
)
    requires
        distinct_files(before),
        ({
            ||| exists|i: int|
                0 <= i < before.len() && (#[trigger] before[i]).0 == path && after == before.update(
                    i,
                    (path, before[i].1.push(line)),
                )
            ||| (forall|i: int| 0 <= i < before.len() ==> (#[trigger] before[i]).0 != path)
                && after == before.push((path, Seq::<Seq<char>>::empty().push(line)))
        }),
    ensures
        distinct_files(after),
        grouped(after) == with_line(grouped(before), path, line),
{
    let old_map = grouped(before);
    let new_map = grouped(after);
    let want = with_line(old_map, path, line);
    assert forall|p: Seq<char>| new_map.contains_key(p) == want.contains_key(p) by {
        if new_map.contains_key(p) && p != path {
            let i = choose|i: int| 0 <= i < after.len() && (#[trigger] after[i]).0 == p;
            assert(before[i].0 == p);
        }
        if old_map.contains_key(p) {
            let i = choose|i: int| 0 <= i < before.len() && (#[trigger] before[i]).0 == p;
            assert(after[i].0 == p);
        }
        if p == path {
            if exists|i: int| 0 <= i < before.len() && (#[trigger] before[i]).0 == path {
                let i = choose|i: int| 0 <= i < before.len() && (#[trigger] before[i]).0 == path;
                assert(after[i].0 == path);
            } else {
                assert(after[before.len() as int].0 == path);
            }
        }
    }
    assert forall|p: Seq<char>| new_map.contains_key(p) implies #[trigger] new_map[p] == want[p] by {
        let i = choose|i: int| 0 <= i < after.len() && (#[trigger] after[i]).0 == p;
        if i < before.len() {
            assert(before[i].0 == p);
            let k = choose|k: int| 0 <= k < before.len() && (#[trigger] before[k]).0 == p;
            assert(k == i);
        }
    }
    assert(new_map =~= want);
}

/// How far a unified diff has been read.
#[verifier::ext_equal]
pub struct DiffState {
    /// The file whose hunks are being read, if it is still there after the change.
    pub file: Option<Seq<char>>,
    /// A `@@` marker has been seen since the last `diff --git` header.
    pub in_hunk: bool,
    /// The added lines so far.
    pub added: Map<Seq<char>, Seq<Seq<char>>>,
}

/// Nothing has been read.
pub open spec fn diff_start() -> DiffState {
    DiffState { file: None, in_hunk: false, added: Map::empty() }
}

/// `line`, without the `+` that it begins with, is added to the file being read.
pub open spec fn captured(s: DiffState, line: Seq<char>) -> DiffState {
    match s.file {
        Some(file) => DiffState { added: with_line(s.added, file, line.drop_first()), ..s },
        None => s,
    }
}

/// The file that a `+++ ` header names: none for `/dev/null`, nor for a path that
/// does not stand under `b/`.
pub open spec fn header_file(line: Seq<char>) -> Option<Seq<char>> {
    if "+++ b/"@.is_prefix_of(line) {
        Some(trim_end(line.skip("+++ b/"@.len() as int)))
    } else {
        None
    }
}

/// Reading one more line.
///
/// A `diff --git` header leaves the hunk and the file; a `@@` marker enters a hunk.
/// A `+++ ` line is a file header only outside of a hunk: inside one it is an added
/// line like every other line that begins with `+`.
pub open spec fn diff_step(s: DiffState, line: Seq<char>) -> DiffState {
    if "diff --git "@.is_prefix_of(line) {
        DiffState { file: None, in_hunk: false, ..s }
    } else if "@@ "@.is_prefix_of(line) {
        DiffState { in_hunk: true, ..s }
    } else if "+++ "@.is_prefix_of(line) && !s.in_hunk {
        DiffState { file: header_file(line), ..s }
    } else if "+"@.is_prefix_of(line) {
        captured(s, line)
    } else {
        s
    }
}

/// Reading the lines in order.
pub open spec fn diff_run(s: DiffState, lines: Seq<Seq<char>>) -> DiffState
    decreases lines.len(),
{
    if lines.len() == 0 {
        s
    } else {
        diff_step(diff_run(s, lines.drop_last()), lines.last())
    }
}

/// The added lines of a unified diff, by file.
pub open spec fn added_lines(diff: Seq<char>) -> Map<Seq<char>, Seq<Seq<char>>> {
    diff_run(diff_start(), lines(diff)).added
}

/// Parses a unified diff into its added lines, grouped by destination file.
///
/// Once inside a hunk, a line that begins with `+++ ` is captured as added content:
/// a decorated line cannot hide the additions that follow it. `+++ /dev/null`
/// (a deletion) clears the current file; a `diff --git` header resets the hunk
/// state. White space at the end of a file's path is cut off: git marks the end of
/// a name that holds spaces with a tab.
pub fn parse_added_lines(diff: &str) -> (r: AddedLines)
    ensures
        r@ == added_lines(diff@),
{
    let rows = lines_of(diff);
    let ghost all = rows.deep_view();
    let mut result = AddedLines::new();
    let mut current_file: Option<String> = None;
    let mut in_hunk = false;
    let mut i: usize = 0;
    while i < rows.len()
        invariant
            all == rows.deep_view(),
            i <= rows@.len(),
            diff_run(diff_start(), all.take(i as int)) == (DiffState {
                file: current_file.deep_view(),
                in_hunk,
                added: result@,
            }),
        decreases rows@.len() - i,
    {
        let ghost before = DiffState { file: current_file.deep_view(), in_hunk, added: result@ };
        let line = chars_of(rows[i].as_str());
        proof {
            assert(all.take(i + 1).drop_last() =~= all.take(i as int));
            assert(all.take(i + 1).last() == line@);
            reveal_strlit("+");
        }
        if starts_with(&line, "diff --git ") {
            in_hunk = false;
            current_file = None;
        } else if starts_with(&line, "@@ ") {
            in_hunk = true;
        } else if starts_with(&line, "+++ ") && !in_hunk {
            current_file = parse_header(&line);
        } else if starts_with(&line, "+") {
            if let Some(file) = &current_file {
                let stripped = string_of(&line, 1, line.len());
                assert(stripped@ =~= line@.drop_first());
                result.add_line(file.as_str(), stripped);
            }
        }
        assert(DiffState { file: current_file.deep_view(), in_hunk, added: result@ } == diff_step(
            before,
            line@,
        ));
        i += 1;
    }
    assert(all.take(all.len() as int) =~= all);
    result
}

/// The file that a `+++ ` header names.
fn parse_header(line: &Vec<char>) -> (r: Option<String>)
    ensures
        r.deep_view() == header_file(line@),
{
    if starts_with(line, "+++ b/") {
        proof {
            reveal_strlit("+++ b/");
        }
        let end = trimmed_end(line, 6);
        Some(string_of(line, 6, end))
    } else {
        None
    }
}

// ── Laws ─────────────────────────────────────────────────────────────────────

/// Reading a concatenation reads the first part, then the second.
pub proof fn lemma_diff_run_add(s: DiffState, a: Seq<Seq<char>>, b: Seq<Seq<char>>)
    ensures
        diff_run(s, a + b) == diff_run(diff_run(s, a), b),
    decreases b.len(),
{
    if b.len() == 0 {
        assert(a + b =~= a);
    } else {
        lemma_diff_run_add(s, a, b.drop_last());
        assert((a + b).drop_last() =~= a + b.drop_last());
    }
}

/// The text that a hunk line adds: what follows its `+`.
pub open spec fn addition(line: Seq<char>) -> Option<Seq<char>> {
    if "+"@.is_prefix_of(line) {
        Some(line.drop_first())
    } else {
        None
    }
}

/// The lines that `added` holds for `path`.
pub open spec fn lines_for(added: Map<Seq<char>, Seq<Seq<char>>>, path: Seq<char>) -> Seq<Seq<char>> {
    if added.contains_key(path) {
        added[path]
    } else {
        Seq::empty()
    }
}

/// What was added before stays in front of what is added from there on.
proof fn lemma_added_before(
    s: DiffState,
    t: DiffState,
    before: Map<Seq<char>, Seq<Seq<char>>>,
    lines: Seq<Seq<char>>,
)
    requires
        s.file == t.file,
        s.in_hunk == t.in_hunk,
        forall|path: Seq<char>| #[trigger]
            lines_for(s.added, path) == lines_for(before, path) + lines_for(t.added, path),
    ensures
        diff_run(s, lines).file == diff_run(t, lines).file,
        diff_run(s, lines).in_hunk == diff_run(t, lines).in_hunk,
        forall|path: Seq<char>| #[trigger]
            lines_for(diff_run(s, lines).added, path) == lines_for(before, path) + lines_for(
                diff_run(t, lines).added,
                path,
            ),
    decreases lines.len(),
{
    if lines.len() > 0 {
        lemma_added_before(s, t, before, lines.drop_last());
        let s1 = diff_run(s, lines.drop_last());
        let t1 = diff_run(t, lines.drop_last());
        let s2 = diff_run(s, lines);
        let t2 = diff_run(t, lines);
        assert forall|path: Seq<char>| #[trigger] lines_for(s2.added, path) == lines_for(
            before,
            path,
        ) + lines_for(t2.added, path) by {
            assert(lines_for(s1.added, path) == lines_for(before, path) + lines_for(t1.added, path));
            assert(lines_for(s2.added, path) =~= lines_for(before, path) + lines_for(
                t2.added,
                path,
            ));
        }
    }
}

/// The files of a diff are read apart: from a `diff --git` header on, nothing that
/// stands before it changes what is captured, and nothing that follows it changes
/// what was.
pub proof fn law_files_are_read_apart(a: Seq<Seq<char>>, b: Seq<Seq<char>>, path: Seq<char>)
    requires
        b.len() > 0,
        "diff --git "@.is_prefix_of(b[0]),
    ensures
        lines_for(diff_run(diff_start(), a + b).added, path) == lines_for(
            diff_run(diff_start(), a).added,
            path,
        ) + lines_for(diff_run(diff_start(), b).added, path),
{
    let head = b.take(1);
    let rest = b.skip(1);
    let read = diff_run(diff_start(), a);
    let s = diff_run(read, head);
    let t = diff_run(diff_start(), head);
    assert(b =~= head + rest);
    lemma_diff_run_add(diff_start(), a, b);
    lemma_diff_run_add(read, head, rest);
    lemma_diff_run_add(diff_start(), head, rest);
    assert(head.drop_last() =~= Seq::<Seq<char>>::empty());
    assert(head.last() == b[0]);
    assert(diff_run(read, head.drop_last()) == read);
    assert(diff_run(diff_start(), head.drop_last()) == diff_start());
    assert forall|p: Seq<char>| #[trigger] lines_for(s.added, p) == lines_for(read.added, p)
        + lines_for(t.added, p) by {
        assert(lines_for(read.added, p) + lines_for(t.added, p) =~= lines_for(read.added, p));
    }
    lemma_added_before(s, t, read.added, rest);
    assert(lines_for(diff_run(s, rest).added, path) == lines_for(read.added, path) + lines_for(
        diff_run(t, rest).added,
        path,
    ));
}

/// Inside a hunk no line hides another: until the next `diff --git` header, every
/// line that begins with `+` is captured for the file being read, in order,
/// whatever follows the `+`, and nothing else is; no other file gains a line.
pub proof fn law_hunk_captures_every_addition(s: DiffState, hunk: Seq<Seq<char>>)
    requires
        s.in_hunk,
        s.file is Some,
        forall|i: int| 0 <= i < hunk.len() ==> !"diff --git "@.is_prefix_of(#[trigger] hunk[i]),
    ensures
        diff_run(s, hunk).in_hunk,
        diff_run(s, hunk).file == s.file,
        lines_for(diff_run(s, hunk).added, s.file->Some_0) == lines_for(s.added, s.file->Some_0)
            + hunk.filter_map(|line: Seq<char>| addition(line)),
        forall|path: Seq<char>|
            path != s.file->Some_0 ==> #[trigger] lines_for(diff_run(s, hunk).added, path)
                == lines_for(s.added, path),
    decreases hunk.len(),
{
    let f = |line: Seq<char>| addition(line);
    let file = s.file->Some_0;
    if hunk.len() == 0 {
        assert(lines_for(s.added, file) + hunk.filter_map(f) =~= lines_for(s.added, file));
    } else {
        let front = hunk.drop_last();
        assert forall|i: int| 0 <= i < front.len() implies !"diff --git "@.is_prefix_of(
            #[trigger] front[i],
        ) by {
            assert(front[i] == hunk[i]);
        }
        law_hunk_captures_every_addition(s, front);
        let before = diff_run(s, front);
        let line = hunk.last();
        assert(!"diff --git "@.is_prefix_of(hunk[hunk.len() - 1]));
        reveal_strlit("@@ ");
        reveal_strlit("+");
        if "@@ "@.is_prefix_of(line) {
            assert(line[0] == "@@ "@[0]) by {
                assert("@@ "@ == line.subrange(0, 3));
            }
            if "+"@.is_prefix_of(line) {
                assert("+"@ == line.subrange(0, 1));
                assert("+"@[0] == line[0]);
            }
        }
        let after = diff_run(s, hunk);
        assert(lines_for(after.added, file) =~= lines_for(s.added, file) + hunk.filter_map(f));
        assert forall|path: Seq<char>| path != file implies #[trigger] lines_for(after.added, path)
            == lines_for(s.added, path) by {
            assert(lines_for(before.added, path) == lines_for(s.added, path));
        }
    }
}

/// A line `<status><tab><path>` gives an entry for its path, wherever it stands. So a
/// rename without rename detection cannot slip past a guard on the old path: its
/// deletion line `D<tab>old` gives one for the old path.
pub proof fn law_two_field_line_gives_its_path(
    out: Seq<char>,
    k: int,
    status: char,
    path: Seq<char>,
)
    requires
        0 <= k < lines(out).len(),
        lines(out)[k] == seq![status, '\t'] + path,
        status != '\t',
        path.len() > 0,
        !path.contains('\t'),
        !(is_space(status) && all_space(path)),
    ensures
        name_status_entries(out).contains(FileEntryModel { status, path }),
{
    let line = seq![status, '\t'] + path;
    let entry = FileEntryModel { status, path };
    let f = |l: Seq<char>| name_status_entry(l);
    assert(line =~= seq![status].push('\t') + path);
    lemma_split_at(seq![status], '\t', path);
    lemma_split_single(seq![status], '\t');
    lemma_split_single(path, '\t');
    assert(split(line, '\t') =~= seq![seq![status], path]);
    assert(!all_space(line)) by {
        if all_space(line) {
            assert(is_space(line[0]));
            assert forall|i: int| 0 <= i < path.len() implies is_space(#[trigger] path[i]) by {
                assert(line[i + 2] == path[i]);
            }
        }
    }
    assert(f(line) == Some(entry));
    lemma_filter_map_has(lines(out), k, f);
}

} // verus!
