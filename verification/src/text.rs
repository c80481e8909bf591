//! Text as sequences of characters: splitting, trimming, searching and joining.

use vstd::prelude::*;

verus! {

// ── Characters and strings ───────────────────────────────────────────────────

/// `String::push` of the standard library: appends the character to the text.
pub assume_specification[ String::push ](s: &mut String, c: char)
    ensures
        final(s)@ == old(s)@.push(c),
;

/// The characters of `s`, in order.
pub fn chars_of(s: &str) -> (r: Vec<char>)
    ensures
        r@ == s@,
{
    let mut out: Vec<char> = Vec::new();
    for c in it: s.chars()
        invariant
            it.seq() == s@,
            out@ == s@.take(it.index()),
    {
        out.push(c);
    }
    assert(s@.take(s@.len() as int) == s@);
    out
}

/// The characters `from..to` as a string.
pub fn string_of(chars: &Vec<char>, from: usize, to: usize) -> (r: String)
    requires
        from <= to <= chars@.len(),
    ensures
        r@ == chars@.subrange(from as int, to as int),
{
    let mut out = String::new();
    let mut i: usize = from;
    while i < to
        invariant
            from <= i <= to <= chars@.len(),
            out@ == chars@.subrange(from as int, i as int),
        decreases to - i,
    {
        out.push(chars[i]);
        i += 1;
    }
    out
}

/// Whether the two texts are the same.
pub fn same_text(a: &str, b: &str) -> (r: bool)
    ensures
        r == (a@ == b@),
{
    a.to_owned() == b.to_owned()
}

/// Whether `text` begins with `prefix`.
pub fn starts_with(text: &Vec<char>, prefix: &str) -> (r: bool)
    ensures
        r == prefix@.is_prefix_of(text@),
{
    let p = chars_of(prefix);
    if p.len() > text.len() {
        return false;
    }
    let mut i: usize = 0;
    while i < p.len()
        invariant
            p@ == prefix@,
            i <= p@.len() <= text@.len(),
            forall|j: int| 0 <= j < i ==> p@[j] == text@[j],
        decreases p@.len() - i,
    {
        if p[i] != text[i] {
            assert(prefix@[i as int] != text@.subrange(0, prefix@.len() as int)[i as int]);
            return false;
        }
        i += 1;
    }
    assert(prefix@ =~= text@.subrange(0, prefix@.len() as int));
    true
}

/// Whether `text` ends with `suffix`.
pub fn ends_with(text: &str, suffix: &str) -> (r: bool)
    ensures
        r == suffix@.is_suffix_of(text@),
{
    let t = chars_of(text);
    let p = chars_of(suffix);
    if p.len() > t.len() {
        return false;
    }
    let len: usize = t.len();
    let start: usize = len - p.len();
    let mut i: usize = 0;
    while i < p.len()
        invariant
            p@ == suffix@,
            t@ == text@,
            len == t@.len(),
            start == len - p@.len(),
            i <= p@.len() <= t@.len(),
            forall|j: int| 0 <= j < i ==> p@[j] == t@[start + j],
        decreases p@.len() - i,
    {
        if p[i] != t[start + i] {
            assert(suffix@[i as int] != text@.subrange(
                (text@.len() - suffix@.len()) as int,
                text@.len() as int,
            )[i as int]);
            return false;
        }
        i += 1;
    }
    assert(suffix@ =~= text@.subrange((text@.len() - suffix@.len()) as int, text@.len() as int));
    true
}

/// `needle` stands somewhere inside `text`.
pub open spec fn contains_text(text: Seq<char>, needle: Seq<char>) -> bool {
    exists|i: int|
        0 <= i <= text.len() - needle.len() && #[trigger] text.subrange(i, i + needle.len())
            == needle
}

/// Whether `needle` stands somewhere inside `text`.
pub fn has_text(text: &str, needle: &str) -> (r: bool)
    ensures
        r == contains_text(text@, needle@),
{
    let t = chars_of(text);
    let n = chars_of(needle);
    if n.len() > t.len() {
        return false;
    }
    let len: usize = t.len();
    let last: usize = len - n.len();
    let mut i: usize = 0;
    loop
        invariant
            len == t@.len(),
            t@ == text@,
            n@ == needle@,
            n@.len() <= t@.len(),
            last == t@.len() - n@.len(),
            i <= last,
            forall|k: int| 0 <= k < i ==> #[trigger] t@.subrange(k, k + n@.len()) != n@,
        decreases last - i,
    {
        let mut j: usize = 0;
        while j < n.len() && t[i + j] == n[j]
            invariant
                i + n@.len() <= t@.len(),
                len == t@.len(),
                j <= n@.len(),
                forall|k: int| 0 <= k < j ==> t@[i + k] == n@[k],
            decreases n@.len() - j,
        {
            j += 1;
        }
        if j == n.len() {
            assert(t@.subrange(i as int, i + n@.len()) =~= n@);
            return true;
        }
        assert(t@.subrange(i as int, i + n@.len())[j as int] != n@[j as int]);
        if i == last {
            return false;
        }
        i += 1;
    }
}

// ── White space ──────────────────────────────────────────────────────────────

/// The characters with the Unicode property `White_Space`.
pub open spec fn is_space(c: char) -> bool {
    ||| '\u{9}' <= c <= '\u{d}'
    ||| c == ' '
    ||| c == '\u{85}'
    ||| c == '\u{a0}'
    ||| c == '\u{1680}'
    ||| '\u{2000}' <= c <= '\u{200a}'
    ||| c == '\u{2028}'
    ||| c == '\u{2029}'
    ||| c == '\u{202f}'
    ||| c == '\u{205f}'
    ||| c == '\u{3000}'
}

/// Whether `c` is white space.
pub fn space(c: char) -> (r: bool)
    ensures
        r == is_space(c),
{
    ('\u{9}' <= c && c <= '\u{d}') || c == ' ' || c == '\u{85}' || c == '\u{a0}' || c == '\u{1680}'
        || ('\u{2000}' <= c && c <= '\u{200a}') || c == '\u{2028}' || c == '\u{2029}' || c
        == '\u{202f}' || c == '\u{205f}' || c == '\u{3000}'
}

/// Every character is white space.
pub open spec fn all_space(s: Seq<char>) -> bool {
    forall|i: int| 0 <= i < s.len() ==> is_space(#[trigger] s[i])
}

/// `s` without its trailing white space.
pub open spec fn trim_end(s: Seq<char>) -> Seq<char>
    decreases s.len(),
{
    if s.len() > 0 && is_space(s.last()) {
        trim_end(s.drop_last())
    } else {
        s
    }
}

/// `s` without its leading white space.
pub open spec fn trim_start(s: Seq<char>) -> Seq<char>
    decreases s.len(),
{
    if s.len() > 0 && is_space(s.first()) {
        trim_start(s.drop_first())
    } else {
        s
    }
}

/// `s` without white space at either end.
pub open spec fn trim(s: Seq<char>) -> Seq<char> {
    trim_end(trim_start(s))
}

/// Where the text that `trim_end` keeps of `chars[from..]` ends.
pub fn trimmed_end(chars: &Vec<char>, from: usize) -> (r: usize)
    requires
        from <= chars@.len(),
    ensures
        from <= r <= chars@.len(),
        chars@.subrange(from as int, r as int) == trim_end(chars@.skip(from as int)),
{
    let mut end: usize = chars.len();
    assert(chars@.subrange(from as int, end as int) =~= chars@.skip(from as int));
    while end > from && space(chars[end - 1])
        invariant
            from <= end <= chars@.len(),
            trim_end(chars@.subrange(from as int, end as int)) == trim_end(
                chars@.skip(from as int),
            ),
        decreases end,
    {
        assert(chars@.subrange(from as int, end as int).drop_last() =~= chars@.subrange(
            from as int,
            end - 1,
        ));
        end -= 1;
    }
    end
}

/// `text` without white space at either end.
pub fn trimmed(text: &str) -> (r: String)
    ensures
        r@ == trim(text@),
{
    let chars = chars_of(text);
    let mut start: usize = 0;
    assert(chars@.skip(0) =~= chars@);
    while start < chars.len() && space(chars[start])
        invariant
            start <= chars@.len(),
            trim_start(chars@.skip(start as int)) == trim_start(chars@),
        decreases chars@.len() - start,
    {
        assert(chars@.skip(start as int).drop_first() =~= chars@.skip(start + 1));
        start += 1;
    }
    assert(trim_start(chars@) == chars@.skip(start as int));
    let end = trimmed_end(&chars, start);
    string_of(&chars, start, end)
}

/// Whether `text` holds nothing but white space.
pub fn is_blank(text: &Vec<char>) -> (r: bool)
    ensures
        r == all_space(text@),
{
    let mut i: usize = 0;
    while i < text.len()
        invariant
            i <= text@.len(),
            forall|j: int| 0 <= j < i ==> is_space(#[trigger] text@[j]),
        decreases text@.len() - i,
    {
        if !space(text[i]) {
            return false;
        }
        i += 1;
    }
    true
}

// ── Splitting ────────────────────────────────────────────────────────────────

/// The pieces of `s` between the occurrences of `sep`; a text without `sep` is
/// its own single piece.
pub open spec fn split(s: Seq<char>, sep: char) -> Seq<Seq<char>>
    decreases s.len(),
{
    if s.len() == 0 {
        seq![Seq::<char>::empty()]
    } else {
        let pieces = split(s.drop_last(), sep);
        if s.last() == sep {
            pieces.push(Seq::empty())
        } else {
            pieces.update(pieces.len() - 1, pieces.last().push(s.last()))
        }
    }
}

/// A line without the carriage return of a `\r\n` ending.
pub open spec fn strip_return(line: Seq<char>) -> Seq<char> {
    if line.len() > 0 && line.last() == '\r' {
        line.drop_last()
    } else {
        line
    }
}

/// The lines of `s`: ended by `\n` or `\r\n`, where the ending of the last line
/// may be missing.
pub open spec fn lines(s: Seq<char>) -> Seq<Seq<char>> {
    let pieces = split(s, '\n');
    let ended = pieces.drop_last().map_values(|p: Seq<char>| strip_return(p));
    if pieces.last().len() == 0 {
        ended
    } else {
        ended.push(pieces.last())
    }
}

/// A text has at least one piece.
pub proof fn lemma_split_nonempty(s: Seq<char>, sep: char)
    ensures
        split(s, sep).len() > 0,
    decreases s.len(),
{
    if s.len() > 0 {
        lemma_split_nonempty(s.drop_last(), sep);
    }
}

/// No piece contains the separator.
pub proof fn lemma_split_pieces_free(s: Seq<char>, sep: char)
    ensures
        forall|i: int| 0 <= i < split(s, sep).len() ==> !(#[trigger] split(s, sep)[i]).contains(sep),
    decreases s.len(),
{
    if s.len() > 0 {
        lemma_split_pieces_free(s.drop_last(), sep);
        lemma_split_nonempty(s.drop_last(), sep);
        let before = split(s.drop_last(), sep);
        assert forall|i: int| 0 <= i < split(s, sep).len() implies !(#[trigger] split(
            s,
            sep,
        )[i]).contains(sep) by {
            let piece = split(s, sep)[i];
            if piece.contains(sep) {
                let k = choose|k: int| 0 <= k < piece.len() && piece[k] == sep;
                if s.last() != sep && i == before.len() - 1 {
                    assert(!before[i].contains(sep));
                    if k < before[i].len() {
                        assert(before[i][k] == sep);
                    }
                } else if i < before.len() {
                    assert(before[i] == piece);
                }
            }
        }
    }
}

/// A text without the separator is its own single piece.
pub proof fn lemma_split_single(s: Seq<char>, sep: char)
    requires
        !s.contains(sep),
    ensures
        split(s, sep) == seq![s],
    decreases s.len(),
{
    if s.len() > 0 {
        let front = s.drop_last();
        assert(s[s.len() - 1] == s.last());
        assert forall|k: int| 0 <= k < front.len() implies front[k] != sep by {
            assert(s[k] == front[k]);
        }
        lemma_split_single(front, sep);
        assert(front.push(s.last()) =~= s);
        assert(split(s, sep) =~= seq![s]);
    } else {
        assert(s =~= Seq::<char>::empty());
    }
}

/// Splitting around one separator splits both sides.
pub proof fn lemma_split_at(a: Seq<char>, sep: char, b: Seq<char>)
    ensures
        split(a.push(sep) + b, sep) == split(a, sep) + split(b, sep),
    decreases b.len(),
{
    let whole = a.push(sep) + b;
    if b.len() == 0 {
        assert(whole =~= a.push(sep));
        assert(whole.drop_last() =~= a);
        assert(split(whole, sep) =~= split(a, sep) + split(b, sep));
    } else {
        lemma_split_at(a, sep, b.drop_last());
        lemma_split_nonempty(b.drop_last(), sep);
        assert(whole.drop_last() =~= a.push(sep) + b.drop_last());
        assert(whole.last() == b.last());
        assert(split(whole, sep) =~= split(a, sep) + split(b, sep));
    }
}

/// The pieces of `text` between the occurrences of `sep`.
pub fn split_text(text: &str, sep: char) -> (r: Vec<String>)
    ensures
        r.deep_view() == split(text@, sep),
{
    let mut out: Vec<String> = Vec::new();
    let mut piece = String::new();
    assert(text@.take(0) =~= Seq::<char>::empty());
    assert(out.deep_view().push(piece@) =~= split(text@.take(0), sep));
    for c in it: text.chars()
        invariant
            it.seq() == text@,
            out.deep_view().push(piece@) == split(text@.take(it.index()), sep),
    {
        let ghost before = split(text@.take(it.index()), sep);
        let ghost old_out = out.deep_view();
        proof {
            let taken = text@.take(it.index() + 1);
            assert(taken.drop_last() =~= text@.take(it.index()));
            assert(taken.last() == c);
            assert(before.last() == piece@);
            assert(before.drop_last() =~= old_out);
        }
        if c == sep {
            out.push(piece);
            piece = String::new();
            assert(out.deep_view() =~= before);
        } else {
            piece.push(c);
            assert(out.deep_view().push(piece@) =~= before.update(
                before.len() - 1,
                before.last().push(c),
            ));
        }
    }
    assert(text@.take(text@.len() as int) =~= text@);
    let ghost old_out = out.deep_view();
    let ghost last = piece@;
    out.push(piece);
    assert(out.deep_view() =~= old_out.push(last));
    out
}

/// The lines of `text`.
pub fn lines_of(text: &str) -> (r: Vec<String>)
    ensures
        r.deep_view() == lines(text@),
{
    let pieces = split_text(text, '\n');
    let ghost ps = pieces.deep_view();
    let ghost ended = ps.drop_last().map_values(|p: Seq<char>| strip_return(p));
    proof {
        lemma_split_nonempty(text@, '\n');
    }
    let mut out: Vec<String> = Vec::new();
    let ending: usize = pieces.len() - 1;
    let mut i: usize = 0;
    while i < ending
        invariant
            ending == pieces@.len() - 1,
            ps == pieces.deep_view(),
            ended == ps.drop_last().map_values(|p: Seq<char>| strip_return(p)),
            i <= ending,
            out.deep_view() == ended.take(i as int),
        decreases ending - i,
    {
        let chars = chars_of(pieces[i].as_str());
        let n: usize = chars.len();
        let end: usize = if n > 0 && chars[n - 1] == '\r' {
            n - 1
        } else {
            n
        };
        let line = string_of(&chars, 0, end);
        assert(line@ =~= strip_return(ps[i as int]));
        let ghost old_out = out.deep_view();
        let ghost added = line@;
        out.push(line);
        assert(out.deep_view() =~= old_out.push(added));
        assert(ended.take(i + 1) =~= ended.take(i as int).push(ended[i as int]));
        i += 1;
    }
    assert(ended.take(i as int) =~= ended);
    if !pieces[i].as_str().is_empty() {
        let ghost old_out = out.deep_view();
        let last = pieces[i].clone();
        assert(last@ == ps.last());
        out.push(last);
        assert(out.deep_view() =~= old_out.push(ps.last()));
    }
    out
}

} // verus!
