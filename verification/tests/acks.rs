use commitward::{exit_class, extract_acks, partition_ack, Ack, Fired};
use commitward::verdict::{judge, judge_message};

fn fire(name: &str, summary: &str) -> Fired {
    Fired {
        name: name.to_string(),
        summary: summary.to_string(),
        matched: vec![],
    }
}

fn ack(name: &str, reason: &str) -> Ack {
    Ack {
        name: name.to_string(),
        reason: reason.to_string(),
    }
}

#[test]
fn partition_ack_semantics() {
    let fired = vec![
        fire("gate-self-mod", "s1"),
        fire("framework-core-change", "s2"),
        fire("destructive-ops", "s3"),
    ];

    // Ack covers two of the three fired checkpoints.
    let acks = vec![
        ack("gate-self-mod", "ADR-0010"),
        ack("framework-core-change", "deliberate"),
    ];

    let (acked, unacked) = partition_ack(&fired, &acks);
    let mut acked_names: Vec<&str> = acked.iter().map(|f| f.name.as_str()).collect();
    let mut unacked_names: Vec<&str> = unacked.iter().map(|f| f.name.as_str()).collect();
    acked_names.sort_unstable();
    unacked_names.sort_unstable();

    assert_eq!(acked_names, ["framework-core-change", "gate-self-mod"]);
    assert_eq!(unacked_names, ["destructive-ops"]);

    // Empty acks — everything unacked.
    let (acked2, unacked2) = partition_ack(&fired, &[]);
    assert!(acked2.is_empty());
    assert_eq!(unacked2.len(), 3);

    // All acked.
    let all_acks = vec![
        ack("gate-self-mod", ""),
        ack("framework-core-change", ""),
        ack("destructive-ops", ""),
    ];
    let (acked3, unacked3) = partition_ack(&fired, &all_acks);
    assert_eq!(acked3.len(), 3);
    assert!(unacked3.is_empty());
}

#[test]
fn exit_classes() {
    assert_eq!(exit_class(0, 0), 0);
    assert_eq!(exit_class(2, 0), 1);
    assert_eq!(exit_class(2, 1), 2);
    assert_eq!(exit_class(0, 3), 0);
}

// ── Acknowledgement lines ────────────────────────────────────────────────────

#[test]
fn a_line_gives_its_name_and_its_reason() {
    assert_eq!(
        extract_acks("Refactor\n\nHITL-ACK: gate-self-mod reviewed with the owner; see ADR-0010\n"),
        [ack("gate-self-mod", "reviewed with the owner; see ADR-0010")]
    );
}

#[test]
fn a_line_can_stand_anywhere_and_there_can_be_several() {
    assert_eq!(
        extract_acks("HITL-ACK: first one\nbody\nHITL-ACK:second\n\nHITL-ACK:   third  the   rest "),
        [ack("first", "one"), ack("second", ""), ack("third", "the   rest ")]
    );
}

#[test]
fn lines_without_reasons_do_not_swallow_one_another() {
    assert_eq!(
        extract_acks("HITL-ACK: a\nHITL-ACK: b\nnot a reason"),
        [ack("a", ""), ack("b", "")]
    );
}

#[test]
fn a_name_stands_on_the_line_of_its_marker() {
    assert!(extract_acks("HITL-ACK:\nname reason").is_empty());
    assert!(extract_acks("HITL-ACK:\n\nname").is_empty());
}

#[test]
fn what_is_no_acknowledgement() {
    for message in [
        "",
        "HITL-ACK:",
        "HITL-ACK: ",
        " HITL-ACK: indented",
        "see HITL-ACK: name",
        "hitl-ack: name",
        "HITL-ACK: dotted.name reason",
        "HITL-ACK: (name) reason",
    ] {
        assert!(extract_acks(message).is_empty(), "{message:?}");
    }
}

#[test]
fn names_hold_word_characters_and_hyphens() {
    assert_eq!(extract_acks("HITL-ACK: -a_B9- x"), [ack("-a_B9-", "x")]);
    // Word characters beyond ASCII count, other symbols do not.
    assert_eq!(extract_acks("HITL-ACK: é日1 ok"), [ack("é日1", "ok")]);
    assert!(extract_acks("HITL-ACK: → ok").is_empty());
}

#[test]
fn white_space_beyond_ascii_separates_too() {
    assert_eq!(extract_acks("HITL-ACK:\u{a0}name\u{2003}why"), [ack("name", "why")]);
}

#[test]
fn a_carriage_return_is_white_space_behind_a_name_and_text_in_a_reason() {
    assert_eq!(extract_acks("HITL-ACK: a\r\nHITL-ACK: b c\r\n"), [ack("a", ""), ack("b", "c\r")]);
}

// ── Verdicts ─────────────────────────────────────────────────────────────────

#[test]
fn acknowledging_lifts_the_block_and_keeps_the_fire() {
    let fires = || vec![fire("a", "s"), fire("b", "s")];

    let open = judge_message(fires(), "HITL-ACK: b fine");
    assert_eq!(open.exit_class, 2);
    assert_eq!(open.fired, fires());
    assert_eq!(open.acked, [fire("b", "s")]);
    assert_eq!(open.unacked, [fire("a", "s")]);

    let lifted = judge_message(fires(), "HITL-ACK: b fine\nHITL-ACK: a fine too");
    assert_eq!(lifted.exit_class, 1);
    assert_eq!(lifted.fired, fires());
    assert_eq!(lifted.acked, fires());
    assert!(lifted.unacked.is_empty());

    assert_eq!(judge(vec![], &[ack("a", "")]).exit_class, 0);
}

#[test]
fn one_acknowledgement_covers_all_fires_of_its_name() {
    let verdict = judge(vec![fire("a", "1"), fire("a", "2")], &[ack("a", ""), ack("zzz", "")]);
    assert_eq!(verdict.exit_class, 1);
    assert_eq!(verdict.acked.len(), 2);
}
