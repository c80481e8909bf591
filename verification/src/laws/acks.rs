//! What acknowledging does.

use vstd::prelude::*;

use crate::ack::{
    ack_name, ack_parts, acked, acknowledges, acknowledges_name, exit_class_of, is_acked,
    law_one_ack_per_line, line_ack, message_acks, unacked, unicode_word, word_char, AckModel,
};
use crate::detect::FiredModel;
use crate::laws::text::law_trim_start;
use crate::seqs::{
    lemma_filter_items, lemma_filter_map_add, lemma_filter_map_has, lemma_filter_parts,
    lemma_same_filter,
};
use crate::text::{all_space, is_space, lemma_split_at, lemma_split_single, split, trim_start};
use crate::verdict::verdict_on;

verus! {

/// Every fire is either acknowledged or not: the two lists hold the fires between
/// them, each fire in the one that it belongs to.
pub proof fn law_partition(fired: Seq<FiredModel>, acks: Seq<AckModel>)
    ensures
        acked(fired, acks).len() + unacked(fired, acks).len() == fired.len(),
        forall|f: FiredModel|
            #[trigger] acked(fired, acks).contains(f) <==> fired.contains(f) && is_acked(
                acks,
                f.name,
            ),
        forall|f: FiredModel|
            #[trigger] unacked(fired, acks).contains(f) <==> fired.contains(f) && !is_acked(
                acks,
                f.name,
            ),
{
    let yes = |f: FiredModel| is_acked(acks, f.name);
    let no = |f: FiredModel| !is_acked(acks, f.name);
    lemma_filter_items(fired, yes);
    lemma_filter_items(fired, no);
    lemma_filter_parts(fired, yes, no);
}

/// The exit class is 0 just when nothing fired, 2 just when some fire is not
/// acknowledged, and 1 otherwise; it is nothing else.
pub proof fn law_exit_class(fired: Seq<FiredModel>, acks: Seq<AckModel>)
    ensures
        verdict_on(fired, acks).exit_class == 0 <==> fired.len() == 0,
        verdict_on(fired, acks).exit_class == 2 <==> exists|f: FiredModel|
            #[trigger] fired.contains(f) && !is_acked(acks, f.name),
        verdict_on(fired, acks).exit_class == 1 <==> fired.len() > 0 && forall|f: FiredModel|
            #[trigger] fired.contains(f) ==> is_acked(acks, f.name),
        0 <= verdict_on(fired, acks).exit_class <= 2,
{
    law_partition(fired, acks);
    let rest = unacked(fired, acks);
    if rest.len() > 0 {
        assert(rest.contains(rest[0]));
        assert(fired.contains(rest[0]));
    }
    if exists|f: FiredModel| #[trigger] fired.contains(f) && !is_acked(acks, f.name) {
        let f = choose|f: FiredModel| #[trigger] fired.contains(f) && !is_acked(acks, f.name);
        assert(rest.contains(f));
    }
}

/// Acknowledging more lifts a block and never makes one, and erases no fire: the
/// fires stay, the exit class does not grow, and one that is not 0 stays so.
pub proof fn law_acks_only_lift(fired: Seq<FiredModel>, fewer: Seq<AckModel>, more: Seq<AckModel>)
    requires
        forall|name: Seq<char>| #[trigger] is_acked(fewer, name) ==> is_acked(more, name),
    ensures
        verdict_on(fired, more).fired == verdict_on(fired, fewer).fired,
        verdict_on(fired, more).exit_class <= verdict_on(fired, fewer).exit_class,
        verdict_on(fired, more).exit_class == 0 <==> verdict_on(fired, fewer).exit_class == 0,
{
    law_exit_class(fired, fewer);
    law_exit_class(fired, more);
}

/// A message acknowledges a name just when one of its lines does.
pub proof fn law_message_acks_by_line(message: Seq<char>, name: Seq<char>)
    ensures
        is_acked(message_acks(message), name) <==> exists|k: int|
            0 <= k < split(message, '\n').len() && acknowledges_name(
                #[trigger] split(message, '\n')[k],
                name,
            ),
{
    let rows = split(message, '\n');
    let f = |line: Seq<char>| line_ack(line);
    let acks = message_acks(message);
    if is_acked(acks, name) {
        let i = choose|i: int| 0 <= i < acks.len() && (#[trigger] acks[i]).name == name;
        assert(rows.filter_map(f).contains(acks[i]));
        rows.lemma_filter_map_contains(f, acks[i]);
        let line = choose|line: Seq<char>|
            #[trigger] rows.contains(line) && f(line) == Some(acks[i]);
        let k = choose|k: int| 0 <= k < rows.len() && rows[k] == line;
        assert(acknowledges(rows[k], acks[i]));
        assert(acknowledges_name(rows[k], name));
    }
    if exists|k: int| 0 <= k < rows.len() && acknowledges_name(#[trigger] rows[k], name) {
        let k = choose|k: int| 0 <= k < rows.len() && acknowledges_name(#[trigger] rows[k], name);
        let ack = choose|ack: AckModel| #[trigger] acknowledges(rows[k], ack) && ack.name == name;
        law_one_ack_per_line(rows[k], ack, choose|a: AckModel| acknowledges(rows[k], a));
        lemma_filter_map_has(rows, k, f);
        assert(acks.contains(ack));
    }
}

/// `trim_start` cuts white space off, and leaves what does not begin with any.
proof fn lemma_trim_start(s: Seq<char>)
    ensures
        trim_start(s).len() <= s.len(),
        trim_start(s) == s.skip(s.len() - trim_start(s).len()),
        all_space(s.take(s.len() - trim_start(s).len())),
        trim_start(s).len() > 0 ==> !is_space(trim_start(s)[0]),
{
    law_trim_start(s);
}

/// A line `HITL-ACK: <name> <reason>` anywhere in a message acknowledges the name,
/// whatever the reason and whatever else the message holds, and its reason is the
/// text that follows the name on that line.
pub proof fn law_ack_line(message: Seq<char>, k: int, name: Seq<char>, reason: Seq<char>)
    requires
        ack_name(name),
        0 <= k < split(message, '\n').len(),
        split(message, '\n')[k] == "HITL-ACK: "@ + name + " "@ + reason,
    ensures
        is_acked(message_acks(message), name),
        message_acks(message).contains(AckModel { name, reason: trim_start(reason) }),
{
    let line = split(message, '\n')[k];
    let kept = trim_start(reason);
    let n = reason.len() - kept.len();
    let gap = " "@;
    let space = " "@ + reason.take(n);
    let ack = AckModel { name, reason: kept };
    lemma_trim_start(reason);
    reveal_strlit("HITL-ACK: ");
    reveal_strlit("HITL-ACK:");
    reveal_strlit(" ");
    assert("HITL-ACK: "@ =~= "HITL-ACK:"@ + gap);
    assert(line =~= "HITL-ACK:"@ + gap + name + space + kept);
    assert forall|i: int| 0 <= i < space.len() implies is_space(#[trigger] space[i]) by {
        if i > 0 {
            assert(space[i] == reason.take(n)[i - 1]);
        }
    }
    assert(ack_parts(line, gap, ack.name, space, ack.reason));
    assert(acknowledges(line, ack));
    law_message_acks_by_line(message, name);
    law_one_ack_per_line(line, ack, choose|a: AckModel| acknowledges(line, a));
    lemma_filter_map_has(split(message, '\n'), k, |l: Seq<char>| line_ack(l));
}

/// Only a name of word characters and hyphens can be acknowledged.
pub proof fn law_acked_names(message: Seq<char>, name: Seq<char>)
    requires
        is_acked(message_acks(message), name),
    ensures
        ack_name(name),
{
    law_message_acks_by_line(message, name);
    let k = choose|k: int|
        0 <= k < split(message, '\n').len() && acknowledges_name(
            #[trigger] split(message, '\n')[k],
            name,
        );
}

// ── Line by line ─────────────────────────────────────────────────────────────

/// What two parts of a message on lines of their own acknowledge is what each of them
/// does, in order: no line takes anything from another.
pub proof fn law_message_acks_add(a: Seq<char>, b: Seq<char>)
    ensures
        message_acks(a.push('\n') + b) == message_acks(a) + message_acks(b),
{
    lemma_split_at(a, '\n', b);
    lemma_filter_map_add(split(a, '\n'), split(b, '\n'), |line: Seq<char>| line_ack(line));
}

/// The character can stand in a name that is acknowledged: a letter, a digit or an
/// underscore of ASCII, a hyphen, or a word character beyond ASCII.
pub open spec fn name_char(c: char) -> bool {
    ||| 'a' <= c <= 'z'
    ||| 'A' <= c <= 'Z'
    ||| '0' <= c <= '9'
    ||| c == '_'
    ||| c == '-'
    ||| c > '\u{7f}' && unicode_word(c) && !is_space(c)
}

/// The parts of an acknowledgement line: the marker, any white space, the name, and then
/// nothing, or white space and the reason.
pub open spec fn ack_line(
    line: Seq<char>,
    gap: Seq<char>,
    name: Seq<char>,
    space: Seq<char>,
    reason: Seq<char>,
) -> bool {
    &&& line == "HITL-ACK:"@ + gap + name + space + reason
    &&& forall|i: int| 0 <= i < gap.len() ==> is_space(#[trigger] gap[i])
    &&& name.len() > 0
    &&& forall|i: int| 0 <= i < name.len() ==> name_char(#[trigger] name[i])
    &&& forall|i: int| 0 <= i < space.len() ==> is_space(#[trigger] space[i])
    &&& space.len() == 0 ==> reason.len() == 0
    &&& reason.len() > 0 ==> !is_space(reason[0])
}

/// A line of those parts acknowledges the name for the reason, and nothing else.
pub proof fn law_ack_of_a_line(
    line: Seq<char>,
    gap: Seq<char>,
    name: Seq<char>,
    space: Seq<char>,
    reason: Seq<char>,
)
    requires
        ack_line(line, gap, name, space, reason),
        forall|i: int| 0 <= i < line.len() ==> #[trigger] line[i] != '\n',
    ensures
        message_acks(line) == seq![AckModel { name, reason }],
{
    let ack = AckModel { name, reason };
    assert forall|i: int| 0 <= i < name.len() implies word_char(#[trigger] name[i]) || name[i]
        == '-' by {
        assert(name_char(name[i]));
    }
    assert(ack_parts(line, gap, ack.name, space, ack.reason));
    assert(acknowledges(line, ack));
    law_one_ack_per_line(line, ack, choose|a: AckModel| acknowledges(line, a));
    lemma_acks_of_one_line(line);
}

/// A line without a line feed gives what it acknowledges.
proof fn lemma_acks_of_one_line(line: Seq<char>)
    requires
        forall|i: int| 0 <= i < line.len() ==> #[trigger] line[i] != '\n',
    ensures
        message_acks(line) == match line_ack(line) {
            Some(ack) => seq![ack],
            None => Seq::empty(),
        },
{
    let f = |l: Seq<char>| line_ack(l);
    assert(!line.contains('\n'));
    lemma_split_single(line, '\n');
    reveal_with_fuel(Seq::filter_map, 2);
    assert(seq![line].drop_last() =~= Seq::<Seq<char>>::empty());
    assert(seq![line].last() == line);
    assert(seq![line].filter_map(f) =~= match line_ack(line) {
        Some(ack) => seq![ack],
        None => Seq::empty(),
    });
}

/// Only a line of those parts acknowledges anything, and then one name.
pub proof fn law_only_ack_lines(line: Seq<char>)
    requires
        forall|i: int| 0 <= i < line.len() ==> #[trigger] line[i] != '\n',
        message_acks(line).len() > 0,
    ensures
        message_acks(line).len() == 1,
        exists|gap: Seq<char>, space: Seq<char>| #[trigger]
            ack_line(line, gap, message_acks(line)[0].name, space, message_acks(line)[0].reason),
{
    lemma_acks_of_one_line(line);
    let ack = line_ack(line)->Some_0;
    assert(acknowledges(line, ack));
    let (gap, space) = choose|gap: Seq<char>, space: Seq<char>|
        ack_parts(line, gap, ack.name, space, ack.reason);
    assert forall|i: int| 0 <= i < ack.name.len() implies name_char(#[trigger] ack.name[i]) by {
        assert(word_char(ack.name[i]) || ack.name[i] == '-');
    }
    assert(message_acks(line)[0] == ack);
    assert(ack_line(line, gap, message_acks(line)[0].name, space, message_acks(line)[0].reason));
}

// ── Verdicts, in full ────────────────────────────────────────────────────────

/// One of the acknowledgements has that name.
pub open spec fn some_ack_has(acks: Seq<AckModel>, name: Seq<char>) -> bool {
    exists|i: int| 0 <= i < acks.len() && (#[trigger] acks[i]).name == name
}

/// A fire is acknowledged just when any one of the acknowledgements has its name. Both
/// lists keep the order of the fires, and the exit class is 0 where nothing fired, 2
/// where any one fire has the name of no acknowledgement, and 1 otherwise.
pub proof fn law_verdict(fired: Seq<FiredModel>, acks: Seq<AckModel>)
    ensures
        acked(fired, acks) == fired.filter(|f: FiredModel| some_ack_has(acks, f.name)),
        unacked(fired, acks) == fired.filter(|f: FiredModel| !some_ack_has(acks, f.name)),
        verdict_on(fired, acks).fired == fired,
        verdict_on(fired, acks).acked == acked(fired, acks),
        verdict_on(fired, acks).unacked == unacked(fired, acks),
        verdict_on(fired, acks).exit_class == 0 <==> fired.len() == 0,
        verdict_on(fired, acks).exit_class == 2 <==> exists|k: int|
            0 <= k < fired.len() && !some_ack_has(acks, (#[trigger] fired[k]).name),
        verdict_on(fired, acks).exit_class == 1 <==> fired.len() > 0 && forall|k: int|
            0 <= k < fired.len() ==> some_ack_has(acks, (#[trigger] fired[k]).name),
{
    let yes = |f: FiredModel| is_acked(acks, f.name);
    let no = |f: FiredModel| !is_acked(acks, f.name);
    assert forall|name: Seq<char>| #[trigger] is_acked(acks, name) == some_ack_has(
        acks,
        name,
    ) by {}
    lemma_same_filter(fired, yes, |f: FiredModel| some_ack_has(acks, f.name));
    lemma_same_filter(fired, no, |f: FiredModel| !some_ack_has(acks, f.name));
    law_exit_class(fired, acks);
    if exists|f: FiredModel| #[trigger] fired.contains(f) && !is_acked(acks, f.name) {
        let f = choose|f: FiredModel| #[trigger] fired.contains(f) && !is_acked(acks, f.name);
        let k = choose|k: int| 0 <= k < fired.len() && fired[k] == f;
        assert(!some_ack_has(acks, fired[k].name));
    }
    if exists|k: int| 0 <= k < fired.len() && !some_ack_has(acks, (#[trigger] fired[k]).name) {
        let k = choose|k: int|
            0 <= k < fired.len() && !some_ack_has(acks, (#[trigger] fired[k]).name);
        assert(!is_acked(acks, fired[k].name));
        assert(fired.contains(fired[k]));
    }
}

/// The exit class out of the two counts.
pub proof fn law_exit_class_of_counts(fired: nat, unacked: nat)
    ensures
        exit_class_of(0, unacked) == 0,
        fired > 0 ==> exit_class_of(fired, 0) == 1,
        fired > 0 && unacked > 0 ==> exit_class_of(fired, unacked) == 2,
{
}

} // verus!
