//! Acknowledgements: `HITL-ACK:` lines, and what they do to fired checkpoints.

use vstd::prelude::*;

use crate::detect::{Fired, FiredModel};
use crate::text::{
    all_space, chars_of, is_space, lemma_split_pieces_free, same_text, split, split_text,
    starts_with,
};

verus! {

/// An acknowledgement line of a commit message.
#[derive(Debug, PartialEq)]
pub struct Ack {
    pub name: String,
    /// Remainder of the line after the name; empty when no reason was given.
    pub reason: String,
}

/// The mathematical value of an `Ack`.
#[verifier::ext_equal]
pub struct AckModel {
    pub name: Seq<char>,
    pub reason: Seq<char>,
}

impl DeepView for Ack {
    type V = AckModel;

    open spec fn deep_view(&self) -> AckModel {
        AckModel { name: self.name@, reason: self.reason@ }
    }
}

impl Clone for Ack {
    fn clone(&self) -> (r: Ack)
        ensures
            r.deep_view() == self.deep_view(),
    {
        Ack { name: self.name.clone(), reason: self.reason.clone() }
    }
}

// ── The acknowledgement line ─────────────────────────────────────────────────

/// The pattern of an acknowledgement line.
pub const ACK_PATTERN: &'static str = r"(?m)^HITL-ACK:\s*([\w-]+)(?:\s+(.*))?$";

/// What the class `\w` of the `regex` crate says of a character beyond ASCII.
pub uninterp spec fn unicode_word(c: char) -> bool;

/// A word character: of ASCII the letters, the digits and the underscore; no white
/// space.
pub open spec fn word_char(c: char) -> bool {
    if c <= '\u{7f}' {
        ('a' <= c <= 'z') || ('A' <= c <= 'Z') || ('0' <= c <= '9') || c == '_'
    } else {
        unicode_word(c) && !is_space(c)
    }
}

/// A checkpoint name that a line can acknowledge: one or more word characters and
/// hyphens.
pub open spec fn ack_name(name: Seq<char>) -> bool {
    &&& name.len() > 0
    &&& forall|i: int| 0 <= i < name.len() ==> word_char(#[trigger] name[i]) || name[i] == '-'
}

/// `line` is `HITL-ACK:`, optional white space, a name, and nothing more or white
/// space and the reason, which does not begin with white space.
pub open spec fn ack_parts(
    line: Seq<char>,
    gap: Seq<char>,
    name: Seq<char>,
    space: Seq<char>,
    reason: Seq<char>,
) -> bool {
    &&& line == "HITL-ACK:"@ + gap + name + space + reason
    &&& all_space(gap)
    &&& ack_name(name)
    &&& all_space(space)
    &&& space.len() == 0 ==> reason.len() == 0
    &&& reason.len() > 0 ==> !is_space(reason[0])
}

/// `line` acknowledges that name, for that reason.
pub open spec fn acknowledges(line: Seq<char>, ack: AckModel) -> bool {
    exists|gap: Seq<char>, space: Seq<char>|
        ack_parts(line, gap, ack.name, space, ack.reason)
}

/// `line` acknowledges that name, for some reason.
pub open spec fn acknowledges_name(line: Seq<char>, name: Seq<char>) -> bool {
    exists|ack: AckModel| #[trigger] acknowledges(line, ack) && ack.name == name
}

/// What a line acknowledges.
pub open spec fn line_ack(line: Seq<char>) -> Option<AckModel> {
    if exists|ack: AckModel| acknowledges(line, ack) {
        Some(choose|ack: AckModel| acknowledges(line, ack))
    } else {
        None
    }
}

/// What a commit message acknowledges, line by line.
pub open spec fn message_acks(message: Seq<char>) -> Seq<AckModel> {
    split(message, '\n').filter_map(|line: Seq<char>| line_ack(line))
}

/// A line acknowledges at most one name, for one reason.
pub proof fn law_one_ack_per_line(line: Seq<char>, a: AckModel, b: AckModel)
    requires
        acknowledges(line, a),
        acknowledges(line, b),
    ensures
        a == b,
{
    let (g1, s1) = choose|gap: Seq<char>, space: Seq<char>|
        ack_parts(line, gap, a.name, space, a.reason);
    let (g2, s2) = choose|gap: Seq<char>, space: Seq<char>|
        ack_parts(line, gap, b.name, space, b.reason);
    let p = "HITL-ACK:"@.len() as int;
    assert(line.skip(p) =~= g1 + (a.name + s1 + a.reason));
    assert(line.skip(p) =~= g2 + (b.name + s2 + b.reason));
    lemma_gaps_agree(line, p, g1, a.name + s1 + a.reason, g2, b.name + s2 + b.reason);
    assert(line.skip(p + g1.len()) =~= a.name + s1 + a.reason);
    assert(line.skip(p + g1.len()) =~= b.name + s2 + b.reason);
    assert(a.name.len() == b.name.len()) by {
        lemma_names_agree(line, p + g1.len(), a.name, s1, a.reason, b.name, s2, b.reason);
        lemma_names_agree(line, p + g1.len(), b.name, s2, b.reason, a.name, s1, a.reason);
    }
    let n = p + g1.len() + a.name.len();
    assert(s1.len() == s2.len()) by {
        if s1.len() < s2.len() {
            assert(line[n + s1.len()] == s2[s1.len() as int]);
            if a.reason.len() > 0 {
                assert(line[n + s1.len()] == a.reason[0]);
            }
        }
        if s2.len() < s1.len() {
            assert(line[n + s2.len()] == s1[s2.len() as int]);
            if b.reason.len() > 0 {
                assert(line[n + s2.len()] == b.reason[0]);
            }
        }
    }
    assert(a.name =~= line.subrange(p + g1.len(), n));
    assert(b.name =~= line.subrange(p + g1.len(), n));
    assert(a.reason =~= line.skip(n + s1.len()));
    assert(b.reason =~= line.skip(n + s1.len()));
}

/// Two runs of white space at the same place, each followed by something else, are
/// of one length.
proof fn lemma_gaps_agree(
    line: Seq<char>,
    from: int,
    g1: Seq<char>,
    rest1: Seq<char>,
    g2: Seq<char>,
    rest2: Seq<char>,
)
    requires
        0 <= from <= line.len(),
        line.skip(from) == g1 + rest1,
        line.skip(from) == g2 + rest2,
        all_space(g1),
        all_space(g2),
        rest1.len() > 0 && !is_space(rest1[0]),
        rest2.len() > 0 && !is_space(rest2[0]),
    ensures
        g1.len() == g2.len(),
{
    if g1.len() < g2.len() {
        assert((g1 + rest1)[g1.len() as int] == rest1[0]);
        assert((g2 + rest2)[g1.len() as int] == g2[g1.len() as int]);
    }
    if g2.len() < g1.len() {
        assert((g2 + rest2)[g2.len() as int] == rest2[0]);
        assert((g1 + rest1)[g2.len() as int] == g1[g2.len() as int]);
    }
}

/// Of two names at the same place neither is shorter.
proof fn lemma_names_agree(
    line: Seq<char>,
    from: int,
    n1: Seq<char>,
    s1: Seq<char>,
    r1: Seq<char>,
    n2: Seq<char>,
    s2: Seq<char>,
    r2: Seq<char>,
)
    requires
        0 <= from <= line.len(),
        line.skip(from) == n1 + s1 + r1,
        line.skip(from) == n2 + s2 + r2,
        ack_name(n1),
        ack_name(n2),
        all_space(s1),
        s1.len() == 0 ==> r1.len() == 0,
    ensures
        n1.len() >= n2.len(),
{
    if n1.len() < n2.len() {
        let k = n1.len() as int;
        assert((n2 + s2 + r2)[k] == n2[k]);
        if s1.len() > 0 {
            assert((n1 + s1 + r1)[k] == s1[0]);
        }
    }
}

/// Calls `regex::Regex::new` on the acknowledgement pattern, which compiles, and
/// `regex::Regex::captures` of the result on one line; gives the texts of the two
/// groups, that of an absent one as empty.
///
/// Within one line the pattern's anchors hold at its ends alone, `.` stands for any
/// character, `\s` for the characters with the property `White_Space`, and `\w` for
/// word characters, none of which is white space; each repetition takes as much as
/// it can. So the pattern matches just when the line has the parts that
/// `acknowledges` states, and its groups are the name and the reason.
#[verifier::external_body]
fn ack_captures(pattern: &str, line: &str) -> (r: Option<(String, String)>)
    requires
        pattern@ == ACK_PATTERN@,
        !line@.contains('\n'),
    ensures
        match r {
            Some((name, reason)) => acknowledges(
                line@,
                AckModel { name: name@, reason: reason@ },
            ),
            None => forall|ack: AckModel| !acknowledges(line@, ack),
        },
        r matches Some((name, reason)) ==> forall|i: int|
            0 <= i < name@.len() && #[trigger] name@[i] > '\u{7f}' ==> unicode_word(name@[i]),
{
    let regex = regex::Regex::new(pattern).unwrap();
    regex.captures(line).map(
        |cap|
            (
                cap.get(1).map_or("", |m| m.as_str()).to_string(),
                cap.get(2).map_or("", |m| m.as_str()).to_string(),
            ),
    )
}

/// Extracts all the `HITL-ACK:` lines of a commit message.
///
/// The reason is the text that follows the name on the same line; without one it is
/// empty.
pub fn extract_acks(commit_msg: &str) -> (r: Vec<Ack>)
    ensures
        r.deep_view() == message_acks(commit_msg@),
{
    let rows = split_text(commit_msg, '\n');
    let ghost all = rows.deep_view();
    let ghost f = |line: Seq<char>| line_ack(line);
    proof {
        lemma_split_pieces_free(commit_msg@, '\n');
    }
    let mut acks: Vec<Ack> = Vec::new();
    let mut i: usize = 0;
    assert(acks.deep_view() =~= all.take(0).filter_map(f));
    while i < rows.len()
        invariant
            all == rows.deep_view(),
            f == |line: Seq<char>| line_ack(line),
            forall|j: int| 0 <= j < all.len() ==> !(#[trigger] all[j]).contains('\n'),
            i <= rows@.len(),
            acks.deep_view() == all.take(i as int).filter_map(f),
        decreases rows@.len() - i,
    {
        let ghost before = acks.deep_view();
        assert(all.take(i + 1).drop_last() =~= all.take(i as int));
        assert(all.take(i + 1).last() == all[i as int]);
        if let Some(ack) = parse_ack_line(rows[i].as_str()) {
            let ghost added = ack.deep_view();
            acks.push(ack);
            assert(acks.deep_view() =~= before.push(added));
        }
        i += 1;
    }
    assert(all.take(all.len() as int) =~= all);
    acks
}

/// What one line acknowledges.
pub fn parse_ack_line(line: &str) -> (r: Option<Ack>)
    requires
        !line@.contains('\n'),
    ensures
        r.deep_view() == line_ack(line@),
{
    if !starts_with(&chars_of(line), "HITL-ACK:") {
        proof {
            assert forall|ack: AckModel| !acknowledges(line@, ack) by {
                if acknowledges(line@, ack) {
                    let (gap, space) = choose|gap: Seq<char>, space: Seq<char>|
                        ack_parts(line@, gap, ack.name, space, ack.reason);
                    assert("HITL-ACK:"@ =~= line@.subrange(0, "HITL-ACK:"@.len() as int));
                }
            }
        }
        return None;
    }
    match ack_captures(ACK_PATTERN, line) {
        Some((name, reason)) => {
            let ack = Ack { name, reason };
            proof {
                law_one_ack_per_line(
                    line@,
                    ack.deep_view(),
                    choose|a: AckModel| acknowledges(line@, a),
                );
            }
            Some(ack)
        },
        None => None,
    }
}

// ── Acknowledged and unacknowledged fires ────────────────────────────────────

/// Some acknowledgement has that name.
pub open spec fn is_acked(acks: Seq<AckModel>, name: Seq<char>) -> bool {
    exists|i: int| 0 <= i < acks.len() && (#[trigger] acks[i]).name == name
}

/// The fires that are acknowledged, in order.
pub open spec fn acked(fired: Seq<FiredModel>, acks: Seq<AckModel>) -> Seq<FiredModel> {
    fired.filter(|f: FiredModel| is_acked(acks, f.name))
}

/// The fires that are not acknowledged, in order.
pub open spec fn unacked(fired: Seq<FiredModel>, acks: Seq<AckModel>) -> Seq<FiredModel> {
    fired.filter(|f: FiredModel| !is_acked(acks, f.name))
}

/// Whether some acknowledgement has that name.
fn has_ack(acks: &[Ack], name: &str) -> (r: bool)
    ensures
        r == is_acked(acks.deep_view(), name@),
{
    let ghost all = acks.deep_view();
    let mut i: usize = 0;
    while i < acks.len()
        invariant
            all == acks.deep_view(),
            i <= acks@.len(),
            forall|j: int| 0 <= j < i ==> (#[trigger] all[j]).name != name@,
        decreases acks@.len() - i,
    {
        if same_text(acks[i].name.as_str(), name) {
            assert(all[i as int].name == name@);
            return true;
        }
        i += 1;
    }
    false
}

/// Partitions fired checkpoints into acknowledged and unacknowledged, each in order.
///
/// A fired checkpoint is acknowledged when its name appears among the
/// acknowledgements.
pub fn partition_ack<'a>(fired: &'a [Fired], acks: &[Ack]) -> (r: (Vec<&'a Fired>, Vec<&'a Fired>))
    ensures
        r.0.deep_view() == acked(fired.deep_view(), acks.deep_view()),
        r.1.deep_view() == unacked(fired.deep_view(), acks.deep_view()),
{
    let ghost all = fired.deep_view();
    let ghost is = acks.deep_view();
    let ghost yes = |f: FiredModel| is_acked(is, f.name);
    let ghost no = |f: FiredModel| !is_acked(is, f.name);
    let mut with_ack: Vec<&'a Fired> = Vec::new();
    let mut without: Vec<&'a Fired> = Vec::new();
    let mut i: usize = 0;
    proof {
        reveal(Seq::filter);
        assert(with_ack.deep_view() =~= all.take(0).filter(yes));
        assert(without.deep_view() =~= all.take(0).filter(no));
    }
    while i < fired.len()
        invariant
            all == fired.deep_view(),
            is == acks.deep_view(),
            yes == |f: FiredModel| is_acked(is, f.name),
            no == |f: FiredModel| !is_acked(is, f.name),
            i <= fired@.len(),
            with_ack.deep_view() == all.take(i as int).filter(yes),
            without.deep_view() == all.take(i as int).filter(no),
        decreases fired@.len() - i,
    {
        let ghost old_with = with_ack.deep_view();
        let ghost old_without = without.deep_view();
        proof {
            reveal(Seq::filter);
            assert(all.take(i + 1).drop_last() =~= all.take(i as int));
            assert(all.take(i + 1).last() == all[i as int]);
        }
        if has_ack(acks, fired[i].name.as_str()) {
            assert(yes(all[i as int]) && !no(all[i as int]));
            with_ack.push(&fired[i]);
            assert(with_ack.deep_view() =~= old_with.push(all[i as int]));
        } else {
            assert(!yes(all[i as int]) && no(all[i as int]));
            without.push(&fired[i]);
            assert(without.deep_view() =~= old_without.push(all[i as int]));
        }
        i += 1;
    }
    assert(all.take(all.len() as int) =~= all);
    (with_ack, without)
}

/// The exit class of a run: 0 when nothing fired, 1 when everything that fired is
/// acknowledged, 2 otherwise.
pub open spec fn exit_class_of(fired: nat, unacked: nat) -> i32 {
    if fired == 0 {
        0
    } else if unacked == 0 {
        1
    } else {
        2
    }
}

/// The exit class out of how many checkpoints fired and how many of those remain
/// unacknowledged.
///
/// - `0`: no checkpoint fired.
/// - `1`: checkpoints fired, all acknowledged.
/// - `2`: at least one fired checkpoint remains unacknowledged.
pub fn exit_class(fired_len: usize, unacked_len: usize) -> (r: i32)
    ensures
        r == exit_class_of(fired_len as nat, unacked_len as nat),
{
    if fired_len == 0 {
        0
    } else if unacked_len == 0 {
        1
    } else {
        2
    }
}

} // verus!
