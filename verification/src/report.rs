//! Reports of a verdict, as text and as Markdown.

use vstd::prelude::*;

use crate::detect::FiredModel;
use crate::verdict::{Verdict, VerdictModel};

verus! {

// ── Numbers ──────────────────────────────────────────────────────────────────

/// The decimal digit of `d`.
pub open spec fn digit(d: nat) -> char {
    ('0' as nat + d) as char
}

/// `n` in decimal.
pub open spec fn decimal(n: nat) -> Seq<char>
    decreases n,
{
    if n < 10 {
        seq![digit(n)]
    } else {
        decimal(n / 10).push(digit(n % 10))
    }
}

/// `n` in decimal.
pub fn to_decimal(n: usize) -> (r: String)
    ensures
        r@ == decimal(n as nat),
    decreases n,
{
    let low: u8 = (n % 10) as u8;
    let c: char = (48u8 + low) as char;
    assert(c == digit((n % 10) as nat));
    if n < 10 {
        let mut s = String::new();
        s.push(c);
        assert(s@ =~= seq![c]);
        s
    } else {
        let mut s = to_decimal(n / 10);
        s.push(c);
        s
    }
}

// ── Blocks of text ───────────────────────────────────────────────────────────

/// The texts, one after the other.
pub open spec fn joined(texts: Seq<Seq<char>>) -> Seq<char>
    decreases texts.len(),
{
    if texts.len() == 0 {
        Seq::empty()
    } else {
        joined(texts.drop_last()) + texts.last()
    }
}

/// One line for each match.
pub open spec fn match_lines(prefix: Seq<char>, matched: Seq<Seq<char>>, suffix: Seq<char>) -> Seq<
    char,
> {
    joined(matched.map_values(|m: Seq<char>| prefix + m + suffix))
}

/// Appends one line for each match.
fn push_match_lines(out: &mut String, prefix: &str, matched: &Vec<String>, suffix: &str)
    ensures
        final(out)@ == old(out)@ + match_lines(prefix@, matched.deep_view(), suffix@),
{
    let ghost start = out@;
    let ghost rows = matched.deep_view().map_values(|m: Seq<char>| prefix@ + m + suffix@);
    let mut i: usize = 0;
    assert(out@ =~= start + joined(rows.take(0)));
    while i < matched.len()
        invariant
            rows == matched.deep_view().map_values(|m: Seq<char>| prefix@ + m + suffix@),
            i <= matched@.len(),
            out@ == start + joined(rows.take(i as int)),
        decreases matched@.len() - i,
    {
        let ghost before = out@;
        assert(rows.take(i + 1).drop_last() =~= rows.take(i as int));
        assert(rows.take(i + 1).last() == prefix@ + matched[i as int]@ + suffix@);
        out.append(prefix);
        out.append(matched[i].as_str());
        out.append(suffix);
        assert(out@ =~= start + joined(rows.take(i + 1)));
        i += 1;
    }
    assert(rows.take(rows.len() as int) =~= rows);
}

// ── Text ─────────────────────────────────────────────────────────────────────

/// An unacknowledged fire, with its matches.
pub open spec fn unacked_text(f: FiredModel) -> Seq<char> {
    "  UNACKED  "@ + f.name + " — "@ + f.summary + "\n"@ + match_lines(
        "             matched: "@,
        f.matched,
        "\n"@,
    )
}

/// An acknowledged fire.
pub open spec fn acked_text(f: FiredModel) -> Seq<char> {
    "  acked    "@ + f.name + " — "@ + f.summary + "\n"@
}

/// How many checkpoints fired, and how many of those are acknowledged or not.
pub open spec fn counts_text(v: VerdictModel) -> Seq<char> {
    decimal(v.fired.len()) + " checkpoint(s) fired — "@ + decimal(v.unacked.len()) + " unacked, "@
        + decimal(v.acked.len()) + " acked\n"@
}

/// The report as text.
pub open spec fn text_report(v: VerdictModel) -> Seq<char> {
    if v.fired.len() == 0 {
        "No checkpoints fired.\n"@
    } else {
        counts_text(v) + joined(v.unacked.map_values(|f: FiredModel| unacked_text(f))) + joined(
            v.acked.map_values(|f: FiredModel| acked_text(f)),
        )
    }
}

/// The report of a verdict as text: the counts, the unacknowledged fires with what
/// they matched, then the acknowledged ones.
pub fn render_text(v: &Verdict) -> (r: String)
    ensures
        r@ == text_report(v.deep_view()),
{
    let ghost model = v.deep_view();
    if v.fired.len() == 0 {
        return "No checkpoints fired.\n".to_owned();
    }
    let mut out = to_decimal(v.fired.len()).concat(" checkpoint(s) fired — ").concat(
        to_decimal(v.unacked.len()).as_str(),
    ).concat(" unacked, ").concat(to_decimal(v.acked.len()).as_str()).concat(" acked\n");
    let ghost start = out@;
    assert(start == counts_text(model));
    let ghost rows = model.unacked.map_values(|f: FiredModel| unacked_text(f));
    let mut i: usize = 0;
    assert(out@ =~= start + joined(rows.take(0)));
    while i < v.unacked.len()
        invariant
            model == v.deep_view(),
            rows == model.unacked.map_values(|f: FiredModel| unacked_text(f)),
            i <= v.unacked@.len(),
            out@ == start + joined(rows.take(i as int)),
        decreases v.unacked@.len() - i,
    {
        let f = &v.unacked[i];
        assert(rows.take(i + 1).drop_last() =~= rows.take(i as int));
        assert(rows.take(i + 1).last() == unacked_text(f.deep_view()));
        out.append("  UNACKED  ");
        out.append(f.name.as_str());
        out.append(" — ");
        out.append(f.summary.as_str());
        out.append("\n");
        push_match_lines(&mut out, "             matched: ", &f.matched, "\n");
        assert(out@ =~= start + joined(rows.take(i + 1)));
        i += 1;
    }
    assert(rows.take(rows.len() as int) =~= rows);
    let ghost middle = out@;
    let ghost quiet = model.acked.map_values(|f: FiredModel| acked_text(f));
    let mut k: usize = 0;
    assert(out@ =~= middle + joined(quiet.take(0)));
    while k < v.acked.len()
        invariant
            model == v.deep_view(),
            quiet == model.acked.map_values(|f: FiredModel| acked_text(f)),
            k <= v.acked@.len(),
            out@ == middle + joined(quiet.take(k as int)),
        decreases v.acked@.len() - k,
    {
        let f = &v.acked[k];
        assert(quiet.take(k + 1).drop_last() =~= quiet.take(k as int));
        assert(quiet.take(k + 1).last() == acked_text(f.deep_view()));
        out.append("  acked    ");
        out.append(f.name.as_str());
        out.append(" — ");
        out.append(f.summary.as_str());
        out.append("\n");
        assert(out@ =~= middle + joined(quiet.take(k + 1)));
        k += 1;
    }
    assert(quiet.take(quiet.len() as int) =~= quiet);
    out
}

// ── Markdown ─────────────────────────────────────────────────────────────────

/// An unacknowledged fire, with its matches, as list items.
pub open spec fn unacked_item(f: FiredModel) -> Seq<char> {
    "- **"@ + f.name + "** — "@ + f.summary + "\n"@ + match_lines(
        "  - Matched: `"@,
        f.matched,
        "`\n"@,
    )
}

/// The counts as a paragraph.
pub open spec fn counts_paragraph(v: VerdictModel) -> Seq<char> {
    "**"@ + decimal(v.fired.len()) + " fired — "@ + decimal(v.unacked.len()) + " unacked, "@
        + decimal(v.acked.len()) + " acked**\n\n"@
}

/// The report as Markdown.
pub open spec fn markdown_report(v: VerdictModel) -> Seq<char> {
    if v.fired.len() == 0 {
        "## HITL Checkpoints\n\n"@ + "No checkpoints fired.\n"@
    } else if v.unacked.len() == 0 {
        "## HITL Checkpoints\n\n"@ + counts_paragraph(v)
    } else {
        "## HITL Checkpoints\n\n"@ + counts_paragraph(v) + ("### Unacknowledged ("@ + decimal(
            v.unacked.len(),
        ) + ")\n\n"@) + joined(v.unacked.map_values(|f: FiredModel| unacked_item(f)))
    }
}

/// The report of a verdict as Markdown: the counts, and the unacknowledged fires
/// with what they matched.
pub fn render_markdown(v: &Verdict) -> (r: String)
    ensures
        r@ == markdown_report(v.deep_view()),
{
    let ghost model = v.deep_view();
    let title = "## HITL Checkpoints\n\n".to_owned();
    if v.fired.len() == 0 {
        return title.concat("No checkpoints fired.\n");
    }
    let counts = "**".to_owned().concat(to_decimal(v.fired.len()).as_str()).concat(
        " fired — ",
    ).concat(to_decimal(v.unacked.len()).as_str()).concat(" unacked, ").concat(
        to_decimal(v.acked.len()).as_str(),
    ).concat(" acked**\n\n");
    let head = title.concat(counts.as_str());
    if v.unacked.len() == 0 {
        return head;
    }
    let heading = "### Unacknowledged (".to_owned().concat(
        to_decimal(v.unacked.len()).as_str(),
    ).concat(")\n\n");
    let mut out = head.concat(heading.as_str());
    let ghost start = out@;
    let ghost rows = model.unacked.map_values(|f: FiredModel| unacked_item(f));
    let mut i: usize = 0;
    assert(out@ =~= start + joined(rows.take(0)));
    while i < v.unacked.len()
        invariant
            model == v.deep_view(),
            rows == model.unacked.map_values(|f: FiredModel| unacked_item(f)),
            i <= v.unacked@.len(),
            out@ == start + joined(rows.take(i as int)),
        decreases v.unacked@.len() - i,
    {
        let f = &v.unacked[i];
        assert(rows.take(i + 1).drop_last() =~= rows.take(i as int));
        assert(rows.take(i + 1).last() == unacked_item(f.deep_view()));
        out.append("- **");
        out.append(f.name.as_str());
        out.append("** — ");
        out.append(f.summary.as_str());
        out.append("\n");
        push_match_lines(&mut out, "  - Matched: `", &f.matched, "`\n");
        assert(out@ =~= start + joined(rows.take(i + 1)));
        i += 1;
    }
    assert(rows.take(rows.len() as int) =~= rows);
    out
}

} // verus!
