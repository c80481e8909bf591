//! What is read out of `git diff` output.

use vstd::prelude::*;

use crate::gitdiff::{
    added_lines, diff_run, diff_start, diff_step, header_file, law_files_are_read_apart,
    lemma_diff_run_add, lines_for, name_status_entries, name_status_entry, with_line, DiffState, FileEntryModel,
};
use crate::laws::text::{complete, law_lines_add, law_one_line, law_trim_end};
use crate::seqs::lemma_filter_map_add;
use crate::text::{
    all_space, is_space, lemma_split_at, lemma_split_nonempty, lemma_split_single, lines, split, trim_end,
};

verus! {

// ── Added lines ──────────────────────────────────────────────────────────────

/// The lines that begin with `+`, in order, each without it.
pub open spec fn plus_lines(rows: Seq<Seq<char>>) -> Seq<Seq<char>> {
    rows.filter(|row: Seq<char>| row.len() > 0 && row[0] == '+').map_values(
        |row: Seq<char>| row.skip(1),
    )
}

/// The file at `path` gained these lines, and no other file gained any.
pub open spec fn gained(path: Seq<char>, rows: Seq<Seq<char>>) -> Map<Seq<char>, Seq<Seq<char>>> {
    if rows.len() == 0 {
        Map::empty()
    } else {
        map![path => rows]
    }
}

/// A line that adds nothing before the first hunk: it is no `@@ ` marker, and where it
/// begins with `+` it names a file.
pub open spec fn header_line(row: Seq<char>) -> bool {
    !"@@ "@.is_prefix_of(row) && (row.len() > 0 && row[0] == '+' ==> "+++ "@.is_prefix_of(row))
}

/// A line that begins with `+` has that prefix, and what has a prefix that begins with
/// `+` begins with `+`.
proof fn lemma_plus(row: Seq<char>)
    ensures
        "+"@.is_prefix_of(row) <==> row.len() > 0 && row[0] == '+',
        "+++ "@.is_prefix_of(row) ==> row.len() > 0 && row[0] == '+',
        "+++ b/"@.is_prefix_of(row) ==> "+++ "@.is_prefix_of(row),
        "@@ "@.is_prefix_of(row) ==> row.len() > 0 && row[0] == '@',
        "diff --git "@.is_prefix_of(row) ==> row.len() > 0 && row[0] == 'd',
{
    reveal_strlit("+");
    reveal_strlit("+++ ");
    reveal_strlit("+++ b/");
    reveal_strlit("@@ ");
    reveal_strlit("diff --git ");
    if "+"@.is_prefix_of(row) {
        assert("+"@[0] == row.subrange(0, 1)[0]);
    }
    if row.len() > 0 && row[0] == '+' {
        assert("+"@ =~= row.subrange(0, 1));
    }
    if "+++ "@.is_prefix_of(row) {
        assert("+++ "@[0] == row.subrange(0, 4)[0]);
    }
    if "+++ b/"@.is_prefix_of(row) {
        assert("+++ "@ =~= "+++ b/"@.subrange(0, 4));
        assert(row.subrange(0, 6).subrange(0, 4) =~= row.subrange(0, 4));
    }
    if "@@ "@.is_prefix_of(row) {
        assert("@@ "@[0] == row.subrange(0, 3)[0]);
    }
    if "diff --git "@.is_prefix_of(row) {
        assert("diff --git "@[0] == row.subrange(0, 11)[0]);
    }
}

/// Header lines enter no hunk and add nothing.
proof fn lemma_header_lines(s: DiffState, rows: Seq<Seq<char>>)
    requires
        !s.in_hunk,
        forall|i: int| 0 <= i < rows.len() ==> header_line(#[trigger] rows[i]),
    ensures
        !diff_run(s, rows).in_hunk,
        diff_run(s, rows).added == s.added,
    decreases rows.len(),
{
    if rows.len() > 0 {
        let front = rows.drop_last();
        assert forall|i: int| 0 <= i < front.len() implies header_line(#[trigger] front[i]) by {
            assert(header_line(rows[i]));
        }
        lemma_header_lines(s, front);
        assert(header_line(rows[rows.len() - 1]));
        lemma_plus(rows.last());
    }
}

/// One more line, for a file that alone gained some.
proof fn lemma_gained_push(path: Seq<char>, rows: Seq<Seq<char>>, row: Seq<char>)
    ensures
        with_line(gained(path, rows), path, row) == gained(path, rows.push(row)),
{
    if rows.len() == 0 {
        assert(rows =~= Seq::empty());
    }
    assert(with_line(gained(path, rows), path, row) =~= gained(path, rows.push(row)));
}

/// Inside a hunk of a file that alone gained lines, it gains the lines that begin with
/// `+`.
proof fn lemma_hunk(s: DiffState, path: Seq<char>, so_far: Seq<Seq<char>>, hunk: Seq<Seq<char>>)
    requires
        s.file == Some(path),
        s.in_hunk,
        s.added == gained(path, so_far),
        forall|i: int| 0 <= i < hunk.len() ==> !"diff --git "@.is_prefix_of(#[trigger] hunk[i]),
    ensures
        diff_run(s, hunk) == (DiffState {
            file: Some(path),
            in_hunk: true,
            added: gained(path, so_far + plus_lines(hunk)),
        }),
    decreases hunk.len(),
{
    reveal(Seq::filter);
    if hunk.len() == 0 {
        assert(so_far + plus_lines(hunk) =~= so_far);
    } else {
        let front = hunk.drop_last();
        let row = hunk.last();
        assert forall|i: int| 0 <= i < front.len() implies !"diff --git "@.is_prefix_of(
            #[trigger] front[i],
        ) by {
            assert(!"diff --git "@.is_prefix_of(hunk[i]));
        }
        lemma_hunk(s, path, so_far, front);
        assert(!"diff --git "@.is_prefix_of(hunk[hunk.len() - 1]));
        lemma_plus(row);
        let kept = so_far + plus_lines(front);
        if row.len() > 0 && row[0] == '+' {
            assert(row.drop_first() =~= row.skip(1));
            lemma_gained_push(path, kept, row.skip(1));
            assert(plus_lines(hunk) =~= plus_lines(front).push(row.skip(1)));
            assert(so_far + plus_lines(hunk) =~= kept.push(row.skip(1)));
        } else {
            assert(plus_lines(hunk) =~= plus_lines(front));
        }
    }
}

/// Inside a hunk of no file, nothing is captured.
proof fn lemma_hunk_of_no_file(s: DiffState, hunk: Seq<Seq<char>>)
    requires
        s.file is None,
        s.in_hunk,
        forall|i: int| 0 <= i < hunk.len() ==> !"diff --git "@.is_prefix_of(#[trigger] hunk[i]),
    ensures
        diff_run(s, hunk) == s,
    decreases hunk.len(),
{
    if hunk.len() > 0 {
        let front = hunk.drop_last();
        assert forall|i: int| 0 <= i < front.len() implies !"diff --git "@.is_prefix_of(
            #[trigger] front[i],
        ) by {
            assert(!"diff --git "@.is_prefix_of(hunk[i]));
        }
        lemma_hunk_of_no_file(s, front);
        assert(!"diff --git "@.is_prefix_of(hunk[hunk.len() - 1]));
    }
}

/// A header line for a file names it, without white space at the end.
proof fn lemma_header_names(path: Seq<char>, blank: Seq<char>)
    requires
        path.len() > 0 ==> !is_space(path[path.len() - 1]),
        all_space(blank),
    ensures
        "+++ b/"@.is_prefix_of("+++ b/"@ + path + blank),
        header_file("+++ b/"@ + path + blank) == Some(path),
{
    reveal_strlit("+++ b/");
    let row = "+++ b/"@ + path + blank;
    let rest = row.skip(6);
    assert(row.subrange(0, 6) =~= "+++ b/"@);
    assert(rest =~= path + blank);
    law_trim_end(rest);
    let kept = trim_end(rest);
    if kept.len() < path.len() {
        assert(is_space(rest[path.len() - 1]));
    }
    if kept.len() > path.len() {
        assert(is_space(blank[kept.len() - 1 - path.len()]));
    }
    assert(kept =~= path);
}

/// The part of a diff that is about one file gives that file just the lines of its
/// hunks that begin with `+`, in order, and no other file any. That holds whatever
/// header lines stand before the one that names the file, whether the file is new or
/// not, and however a hunk line goes on behind its `+`.
pub proof fn law_file_gains_its_plus_lines(
    diff: Seq<char>,
    header: Seq<Seq<char>>,
    path: Seq<char>,
    blank: Seq<char>,
    marker: Seq<char>,
    hunk: Seq<Seq<char>>,
)
    requires
        lines(diff) == header + seq!["+++ b/"@ + path + blank, marker] + hunk,
        forall|i: int| 0 <= i < header.len() ==> header_line(#[trigger] header[i]),
        path.len() > 0 ==> !is_space(path[path.len() - 1]),
        all_space(blank),
        "@@ "@.is_prefix_of(marker),
        forall|i: int| 0 <= i < hunk.len() ==> !"diff --git "@.is_prefix_of(#[trigger] hunk[i]),
    ensures
        added_lines(diff) == gained(path, plus_lines(hunk)),
{
    let row = "+++ b/"@ + path + blank;
    let two = seq![row, marker];
    let none = Seq::<Seq<char>>::empty();
    lemma_diff_run_add(diff_start(), header + two, hunk);
    lemma_diff_run_add(diff_start(), header, two);
    lemma_header_lines(diff_start(), header);
    lemma_header_names(path, blank);
    lemma_plus(row);
    lemma_plus(marker);
    let before = diff_run(diff_start(), header);
    assert(two.drop_last() =~= seq![row]);
    assert(seq![row].drop_last() =~= none);
    let named = DiffState { file: Some(path), in_hunk: false, added: gained(path, none) };
    let inside = DiffState { file: Some(path), in_hunk: true, added: gained(path, none) };
    assert(diff_run(before, none) == before);
    assert(diff_run(before, seq![row]) == diff_step(before, row));
    assert(diff_step(before, row) =~= named);
    assert(diff_run(before, two) == diff_step(named, marker));
    assert(diff_step(named, marker) =~= inside);
    lemma_hunk(inside, path, none, hunk);
    assert(none + plus_lines(hunk) =~= plus_lines(hunk));
}

/// Before the first hunk too, a line that begins with `+` counts for the file that was
/// named last, unless it names a file itself.
pub proof fn law_file_gains_before_a_hunk(
    diff: Seq<char>,
    header: Seq<Seq<char>>,
    path: Seq<char>,
    blank: Seq<char>,
    early: Seq<Seq<char>>,
)
    requires
        lines(diff) == header + seq!["+++ b/"@ + path + blank] + early,
        forall|i: int| 0 <= i < header.len() ==> header_line(#[trigger] header[i]),
        path.len() > 0 ==> !is_space(path[path.len() - 1]),
        all_space(blank),
        forall|i: int|
            0 <= i < early.len() ==> !"diff --git "@.is_prefix_of(#[trigger] early[i])
                && !"+++ "@.is_prefix_of(early[i]),
    ensures
        added_lines(diff) == gained(path, plus_lines(early)),
{
    let row = "+++ b/"@ + path + blank;
    let one = seq![row];
    let none = Seq::<Seq<char>>::empty();
    lemma_diff_run_add(diff_start(), header + one, early);
    lemma_diff_run_add(diff_start(), header, one);
    lemma_header_lines(diff_start(), header);
    lemma_header_names(path, blank);
    lemma_plus(row);
    let before = diff_run(diff_start(), header);
    assert(one.drop_last() =~= none);
    let named = DiffState { file: Some(path), in_hunk: false, added: gained(path, none) };
    assert(diff_run(before, none) == before);
    assert(diff_run(before, one) == diff_step(before, row));
    assert(diff_step(before, row) =~= named);
    lemma_early(named, path, early);
}

/// Lines that name no file and leave none add their `+` lines to the file being read.
proof fn lemma_early(s: DiffState, path: Seq<char>, early: Seq<Seq<char>>)
    requires
        s.file == Some(path),
        s.added == Map::<Seq<char>, Seq<Seq<char>>>::empty(),
        forall|i: int|
            0 <= i < early.len() ==> !"diff --git "@.is_prefix_of(#[trigger] early[i])
                && !"+++ "@.is_prefix_of(early[i]),
    ensures
        diff_run(s, early).file == Some(path),
        diff_run(s, early).added == gained(path, plus_lines(early)),
    decreases early.len(),
{
    reveal(Seq::filter);
    if early.len() > 0 {
        let front = early.drop_last();
        let row = early.last();
        assert forall|i: int| 0 <= i < front.len() implies !"diff --git "@.is_prefix_of(
            #[trigger] front[i],
        ) && !"+++ "@.is_prefix_of(front[i]) by {
            assert(!"diff --git "@.is_prefix_of(early[i]));
        }
        lemma_early(s, path, front);
        assert(!"diff --git "@.is_prefix_of(early[early.len() - 1]));
        lemma_plus(row);
        if row.len() > 0 && row[0] == '+' {
            assert(row.drop_first() =~= row.skip(1));
            lemma_gained_push(path, plus_lines(front), row.skip(1));
            assert(plus_lines(early) =~= plus_lines(front).push(row.skip(1)));
        } else {
            assert(plus_lines(early) =~= plus_lines(front));
        }
    }
}

/// The part of a diff whose file is gone, or does not stand under `b/`, captures
/// nothing.
pub proof fn law_no_file_gains_nothing(
    diff: Seq<char>,
    header: Seq<Seq<char>>,
    named: Seq<char>,
    marker: Seq<char>,
    hunk: Seq<Seq<char>>,
)
    requires
        lines(diff) == header + seq!["+++ "@ + named, marker] + hunk,
        forall|i: int| 0 <= i < header.len() ==> header_line(#[trigger] header[i]),
        named.len() < 2 || named[0] != 'b' || named[1] != '/',
        "@@ "@.is_prefix_of(marker),
        forall|i: int| 0 <= i < hunk.len() ==> !"diff --git "@.is_prefix_of(#[trigger] hunk[i]),
    ensures
        added_lines(diff) == Map::<Seq<char>, Seq<Seq<char>>>::empty(),
{
    let row = "+++ "@ + named;
    let two = seq![row, marker];
    let none = Seq::<Seq<char>>::empty();
    lemma_diff_run_add(diff_start(), header + two, hunk);
    lemma_diff_run_add(diff_start(), header, two);
    lemma_header_lines(diff_start(), header);
    let before = diff_run(diff_start(), header);
    lemma_plus(row);
    lemma_plus(marker);
    reveal_strlit("+++ ");
    reveal_strlit("+++ b/");
    assert("+++ "@ =~= row.subrange(0, 4));
    if "+++ b/"@.is_prefix_of(row) {
        assert("+++ b/"@ == row.subrange(0, 6));
        assert(row.subrange(0, 6)[4] == named[0]);
        assert(row.subrange(0, 6)[5] == named[1]);
    }
    assert(two.drop_last() =~= seq![row]);
    assert(seq![row].drop_last() =~= none);
    let inside = DiffState { file: None, in_hunk: true, added: Map::empty() };
    assert(diff_run(before, none) == before);
    assert(diff_run(before, seq![row]) == diff_step(before, row));
    assert(diff_step(before, row) == diff_start());
    assert(diff_run(before, two) == diff_step(diff_start(), marker));
    assert(diff_step(diff_start(), marker) == inside);
    lemma_hunk_of_no_file(inside, hunk);
}

/// A diff of header lines alone, such as a change of mode or of a binary file, captures
/// nothing.
pub proof fn law_headers_gain_nothing(diff: Seq<char>)
    requires
        forall|i: int| 0 <= i < lines(diff).len() ==> header_line(#[trigger] lines(diff)[i]),
    ensures
        added_lines(diff) == Map::<Seq<char>, Seq<Seq<char>>>::empty(),
{
    lemma_header_lines(diff_start(), lines(diff));
}

/// The diffs of two commits' files, one after the other, give each file what they give
/// it apart.
pub proof fn law_diffs_add(one: Seq<char>, two: Seq<char>, path: Seq<char>)
    requires
        complete(one),
        lines(two).len() > 0,
        "diff --git "@.is_prefix_of(lines(two)[0]),
    ensures
        lines_for(added_lines(one + two), path) == lines_for(added_lines(one), path) + lines_for(
            added_lines(two),
            path,
        ),
{
    law_lines_add(one, two);
    law_files_are_read_apart(lines(one), lines(two), path);
}

// ── Changed files ────────────────────────────────────────────────────────────

/// The entries of two outputs, one after the other, are the entries of each.
pub proof fn law_entries_add(one: Seq<char>, two: Seq<char>)
    requires
        complete(one),
    ensures
        name_status_entries(one + two) == name_status_entries(one) + name_status_entries(two),
{
    law_lines_add(one, two);
    lemma_filter_map_add(lines(one), lines(two), |line: Seq<char>| name_status_entry(line));
}

/// The last piece of a text is what follows its last separator.
proof fn lemma_split_last(s: Seq<char>, sep: char, k: int)
    requires
        0 <= k < s.len(),
        s[k] == sep,
        forall|i: int| k < i < s.len() ==> #[trigger] s[i] != sep,
    ensures
        split(s, sep).len() >= 2,
        split(s, sep).last() == s.skip(k + 1),
{
    let tail = s.skip(k + 1);
    assert(s =~= s.take(k).push(sep) + tail);
    assert(!tail.contains(sep)) by {
        if tail.contains(sep) {
            let i = choose|i: int| 0 <= i < tail.len() && tail[i] == sep;
            assert(s[i + k + 1] == sep);
        }
    }
    lemma_split_at(s.take(k), sep, tail);
    lemma_split_single(tail, sep);
    lemma_split_nonempty(s.take(k), sep);
}

/// The first piece of a text begins as the text does: it is empty just when the text is,
/// or begins with the separator.
proof fn lemma_split_first(s: Seq<char>, sep: char)
    ensures
        split(s, sep).len() > 0,
        s.len() > 0 && s[0] == sep ==> split(s, sep).len() > 1,
        split(s, sep)[0].len() == 0 <==> s.len() == 0 || s[0] == sep,
        s.len() > 0 && s[0] != sep ==> split(s, sep)[0][0] == s[0],
    decreases s.len(),
{
    if s.len() > 0 {
        let front = s.drop_last();
        lemma_split_first(front, sep);
    }
}

/// A line of `git diff --name-status` with a tab gives one entry, of the status that it
/// begins with and the path behind its last tab; unless it is blank, begins with a tab
/// or ends with one: then it gives none. With one tab that is the path itself, with more
/// the last one, as in a rename.
pub proof fn law_entry_of_a_line(row: Seq<char>, tab: int)
    requires
        forall|i: int| 0 <= i < row.len() ==> #[trigger] row[i] != '\n',
        0 <= tab < row.len(),
        row[tab] == '\t',
        forall|i: int| tab < i < row.len() ==> #[trigger] row[i] != '\t',
    ensures
        name_status_entries(row) == (if row[0] == '\t' || tab == row.len() - 1 || (forall|i: int|
            0 <= i < row.len() ==> is_space(#[trigger] row[i])) {
            Seq::empty()
        } else {
            seq![FileEntryModel { status: row[0], path: row.skip(tab + 1) }]
        }),
{
    let f = |line: Seq<char>| name_status_entry(line);
    law_one_line(row);
    lemma_split_last(row, '\t', tab);
    lemma_split_first(row, '\t');
    assert(split(row, '\t').first() == split(row, '\t')[0]);
    assert(seq![row].drop_last() =~= Seq::<Seq<char>>::empty());
    reveal_with_fuel(Seq::filter_map, 2);
    assert(seq![row].last() == row);
    assert(seq![row].filter_map(f) =~= match f(row) {
        Some(entry) => seq![entry],
        None => Seq::empty(),
    });
}

/// A line without a tab gives no entry.
pub proof fn law_no_tab_no_entry(row: Seq<char>)
    requires
        forall|i: int| 0 <= i < row.len() ==> #[trigger] row[i] != '\n' && row[i] != '\t',
    ensures
        name_status_entries(row) == Seq::<FileEntryModel>::empty(),
{
    law_one_line(row);
    assert(!row.contains('\t'));
    lemma_split_single(row, '\t');
    reveal_with_fuel(Seq::filter_map, 2);
    assert(seq![row].drop_last() =~= Seq::<Seq<char>>::empty());
    if row.len() > 0 {
        assert(seq![row].last() == row);
    } else {
        assert(row =~= Seq::empty());
    }
}

/// The ending of a line makes no difference to its entry.
pub proof fn law_line_endings_give_nothing(row: Seq<char>)
    requires
        forall|i: int| 0 <= i < row.len() ==> #[trigger] row[i] != '\n',
    ensures
        name_status_entries(row.push('\r').push('\n')) == name_status_entries(row),
        row.len() == 0 || row[row.len() - 1] != '\r' ==> name_status_entries(row.push('\n'))
            == name_status_entries(row),
{
    law_one_line(row);
    if row.len() == 0 {
        law_no_tab_no_entry(row);
        assert(all_space(row));
        reveal_with_fuel(Seq::filter_map, 2);
        assert(seq![row].drop_last() =~= Seq::<Seq<char>>::empty());
        assert(seq![row].last() == row);
    }
}

} // verus!
