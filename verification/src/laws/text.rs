//! What splitting, trimming and searching text come to.

use vstd::prelude::*;

use crate::text::{
    all_space, contains_text, is_space, lemma_split_at, lemma_split_nonempty,
    lemma_split_pieces_free, lemma_split_single, lines, split, strip_return, trim, trim_end,
    trim_start,
};

verus! {

/// The pieces with the separator between each two of them.
pub open spec fn glued(pieces: Seq<Seq<char>>, sep: char) -> Seq<char>
    decreases pieces.len(),
{
    if pieces.len() == 0 {
        Seq::empty()
    } else if pieces.len() == 1 {
        pieces[0]
    } else {
        glued(pieces.drop_last(), sep).push(sep) + pieces.last()
    }
}

/// Splitting loses nothing: there is a piece, no piece holds the separator, and the
/// pieces glued together again are the text.
pub proof fn law_split_can_be_undone(s: Seq<char>, sep: char)
    ensures
        split(s, sep).len() > 0,
        forall|i: int, k: int|
            0 <= i < split(s, sep).len() && 0 <= k < split(s, sep)[i].len()
                ==> #[trigger] split(s, sep)[i][k] != sep,
        glued(split(s, sep), sep) == s,
    decreases s.len(),
{
    lemma_split_nonempty(s, sep);
    lemma_split_pieces_free(s, sep);
    let pieces = split(s, sep);
    assert forall|i: int, k: int| 0 <= i < pieces.len() && 0 <= k < pieces[i].len() implies
        #[trigger] pieces[i][k] != sep by {
        assert(!pieces[i].contains(sep));
    }
    if s.len() > 0 {
        let front = s.drop_last();
        law_split_can_be_undone(front, sep);
        let before = split(front, sep);
        if s.last() == sep {
            assert(pieces.drop_last() =~= before);
            assert(glued(pieces, sep) =~= front.push(sep));
            assert(front.push(sep) =~= s);
        } else {
            assert(pieces.last() == before.last().push(s.last()));
            assert(pieces.drop_last() =~= before.drop_last());
            assert(glued(pieces, sep) =~= glued(before, sep).push(s.last()));
            assert(front.push(s.last()) =~= s);
        }
    } else {
        assert(glued(pieces, sep) =~= s);
    }
}

/// Splitting glued pieces gives them back, one for one.
pub proof fn law_split_gives_glued_pieces(pieces: Seq<Seq<char>>, sep: char)
    requires
        pieces.len() > 0,
        forall|i: int, k: int|
            0 <= i < pieces.len() && 0 <= k < pieces[i].len() ==> #[trigger] pieces[i][k] != sep,
    ensures
        split(glued(pieces, sep), sep) == pieces,
    decreases pieces.len(),
{
    let last = pieces.last();
    assert(!last.contains(sep)) by {
        if last.contains(sep) {
            let k = choose|k: int| 0 <= k < last.len() && last[k] == sep;
            assert(pieces[pieces.len() - 1][k] != sep);
        }
    }
    lemma_split_single(last, sep);
    if pieces.len() > 1 {
        let front = pieces.drop_last();
        assert forall|i: int, k: int| 0 <= i < front.len() && 0 <= k < front[i].len() implies
            #[trigger] front[i][k] != sep by {
            assert(pieces[i][k] != sep);
        }
        law_split_gives_glued_pieces(front, sep);
        lemma_split_at(glued(front, sep), sep, last);
    }
    assert(split(glued(pieces, sep), sep) =~= pieces);
}

// ── Lines ────────────────────────────────────────────────────────────────────

/// A text that is empty or ends with a line feed: what follows it begins a line.
pub open spec fn complete(s: Seq<char>) -> bool {
    s.len() == 0 || s[s.len() - 1] == '\n'
}

/// The lines of two texts, of which the first is complete, are the lines of each.
pub proof fn law_lines_add(a: Seq<char>, b: Seq<char>)
    requires
        complete(a),
    ensures
        lines(a + b) == lines(a) + lines(b),
{
    if a.len() == 0 {
        assert(a + b =~= b);
        assert(split(a, '\n') =~= seq![Seq::<char>::empty()]);
        assert(lines(a) =~= Seq::empty());
        assert(lines(a) + lines(b) =~= lines(b));
    } else {
        let front = a.drop_last();
        assert(a =~= front.push('\n'));
        let empty = Seq::<char>::empty();
        assert(a =~= front.push('\n') + empty);
        lemma_split_at(front, '\n', empty);
        lemma_split_at(front, '\n', b);
        lemma_split_nonempty(b, '\n');
        let fs = split(front, '\n');
        let bs = split(b, '\n');
        assert(split(empty, '\n') =~= seq![empty]);
        assert(split(a, '\n') =~= fs.push(empty));
        assert(split(a, '\n').drop_last() =~= fs);
        assert(split(a + b, '\n') =~= fs + bs);
        assert((fs + bs).drop_last() =~= fs + bs.drop_last());
        assert((fs + bs).last() == bs.last());
        assert(lines(a + b) =~= lines(a) + lines(b));
    }
}

/// One line, with its ending or without: `row\n`, `row\r\n` and, where it is not empty,
/// `row` have the one line `row`. A carriage return counts as part of the ending just
/// where a line feed follows it.
pub proof fn law_one_line(row: Seq<char>)
    requires
        forall|k: int| 0 <= k < row.len() ==> #[trigger] row[k] != '\n',
    ensures
        lines(row.push('\r').push('\n')) == seq![row],
        row.len() == 0 || row[row.len() - 1] != '\r' ==> lines(row.push('\n')) == seq![row],
        row.len() > 0 ==> lines(row) == seq![row],
        lines(Seq::empty()) == Seq::<Seq<char>>::empty(),
{
    let empty = Seq::<char>::empty();
    assert(!row.contains('\n'));
    let long = row.push('\r');
    assert(!long.contains('\n')) by {
        if long.contains('\n') {
            let k = choose|k: int| 0 <= k < long.len() && long[k] == '\n';
            assert(k < row.len());
            assert(row[k] == '\n');
        }
    }
    lemma_split_single(row, '\n');
    lemma_split_single(long, '\n');
    assert(split(empty, '\n') =~= seq![empty]);
    assert(row.push('\n') =~= row.push('\n') + empty);
    assert(long.push('\n') =~= long.push('\n') + empty);
    lemma_split_at(row, '\n', empty);
    lemma_split_at(long, '\n', empty);
    assert(split(row.push('\n'), '\n') =~= seq![row, empty]);
    assert(split(long.push('\n'), '\n') =~= seq![long, empty]);
    assert(strip_return(long) =~= row);
    assert(lines(long.push('\n')) =~= seq![row]);
    if row.len() == 0 || row[row.len() - 1] != '\r' {
        assert(lines(row.push('\n')) =~= seq![row]);
    }
    assert(seq![row].drop_last() =~= Seq::<Seq<char>>::empty());
    if row.len() > 0 {
        assert(lines(row) =~= seq![row]);
    }
    assert(lines(empty) =~= Seq::<Seq<char>>::empty());
}

// ── White space ──────────────────────────────────────────────────────────────

/// White space is what Unicode gives the property `White_Space`, by code point.
pub proof fn law_white_space(c: char)
    ensures
        is_space(c) <==> {
            let n = c as u32;
            ||| n == 0x9 || n == 0xa || n == 0xb || n == 0xc || n == 0xd
            ||| n == 0x20 || n == 0x85 || n == 0xa0 || n == 0x1680
            ||| 0x2000 <= n <= 0x200a
            ||| n == 0x2028 || n == 0x2029 || n == 0x202f || n == 0x205f || n == 0x3000
        },
{
}

/// Trimming the end cuts white space off, and all of it.
pub proof fn law_trim_end(s: Seq<char>)
    ensures
        trim_end(s).len() <= s.len(),
        forall|k: int| 0 <= k < trim_end(s).len() ==> #[trigger] trim_end(s)[k] == s[k],
        forall|k: int| trim_end(s).len() <= k < s.len() ==> is_space(#[trigger] s[k]),
        trim_end(s).len() > 0 ==> !is_space(trim_end(s)[trim_end(s).len() - 1]),
    decreases s.len(),
{
    if s.len() > 0 && is_space(s.last()) {
        let front = s.drop_last();
        law_trim_end(front);
        assert forall|k: int| trim_end(s).len() <= k < s.len() implies is_space(#[trigger] s[k]) by {
            if k < front.len() {
                assert(is_space(front[k]));
            }
        }
        assert forall|k: int| 0 <= k < trim_end(s).len() implies #[trigger] trim_end(s)[k]
            == s[k] by {
            assert(trim_end(front)[k] == front[k]);
        }
    }
}

/// Trimming the start cuts white space off, and all of it.
pub proof fn law_trim_start(s: Seq<char>)
    ensures
        trim_start(s).len() <= s.len(),
        trim_start(s) == s.skip(s.len() - trim_start(s).len()),
        all_space(s.take(s.len() - trim_start(s).len())),
        trim_start(s).len() > 0 ==> !is_space(trim_start(s)[0]),
    decreases s.len(),
{
    if s.len() > 0 && is_space(s.first()) {
        let rest = s.drop_first();
        law_trim_start(rest);
        let n = s.len() - trim_start(s).len();
        assert(rest.skip(n - 1) =~= s.skip(n));
        assert forall|i: int| 0 <= i < s.take(n).len() implies is_space(#[trigger] s.take(n)[i]) by {
            if i > 0 {
                assert(rest.take(n - 1)[i - 1] == s.take(n)[i]);
            }
        }
    } else {
        assert(s.skip(0) =~= s);
    }
}

/// Trimming a text that begins and ends with something else than white space gives it
/// back from between any white space.
pub proof fn law_trim(left: Seq<char>, text: Seq<char>, right: Seq<char>)
    requires
        all_space(left),
        all_space(right),
        text.len() > 0 ==> !is_space(text[0]) && !is_space(text[text.len() - 1]),
    ensures
        trim(left + text + right) == text,
{
    let whole = left + text + right;
    let cut = trim_start(whole);
    law_trim_start(whole);
    let n = whole.len() - cut.len();
    if text.len() > 0 {
        if n < left.len() {
            assert(cut[0] == whole[n]);
            assert(is_space(left[n]));
        }
        if n > left.len() {
            assert(whole.take(n)[left.len() as int] == text[0]);
        }
        assert(cut =~= text + right);
        let kept = trim_end(cut);
        law_trim_end(cut);
        let m = kept.len() as int;
        if m > text.len() {
            assert(kept[m - 1] == right[m - 1 - text.len()]);
        }
        if m < text.len() {
            assert(is_space(cut[text.len() - 1]));
        }
        assert(kept =~= text);
    } else {
        if n < whole.len() {
            assert(cut[0] == whole[n]);
            if n < left.len() {
                assert(is_space(left[n]));
            } else {
                assert(is_space(right[n - left.len()]));
            }
        }
        assert(trim(whole) =~= text);
    }
}

/// A text contains another just when that one stands between a beginning and an end.
pub proof fn law_contains_text(text: Seq<char>, needle: Seq<char>)
    ensures
        contains_text(text, needle) <==> exists|a: Seq<char>, b: Seq<char>|
            text == #[trigger] (a + needle + b),
{
    if contains_text(text, needle) {
        let i = choose|i: int|
            0 <= i <= text.len() - needle.len() && #[trigger] text.subrange(i, i + needle.len())
                == needle;
        let a = text.take(i);
        let b = text.skip(i + needle.len());
        assert(text =~= a + text.subrange(i, i + needle.len()) + b);
        assert(text == a + needle + b);
    }
    if exists|a: Seq<char>, b: Seq<char>| text == #[trigger] (a + needle + b) {
        let (a, b) = choose|a: Seq<char>, b: Seq<char>| text == #[trigger] (a + needle + b);
        let i = a.len() as int;
        assert(text.subrange(i, i + needle.len()) =~= needle);
    }
}

} // verus!
