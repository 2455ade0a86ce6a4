use bolt::event::Event;
use nostr::event::FinalizeEvent;
use bolt::handle::{
    handle_close_client_message, handle_event_client_frame, handle_event_client_message,
    handle_event_deletion_client_message, handle_req_client_message, handle_save_outcome,
    handle_text_message, handle_unsupported_message, FrameOutcome,
};
use bolt::messages::{RejectionReason, RelayMessage, SaveOutcome};

fn plain_event(content: &str, created_at: u64, kind: u16, tags: Vec<Vec<String>>) -> Event {
    Event {
        id: "a".repeat(64),
        pubkey: "b".repeat(64),
        created_at,
        kind,
        tags,
        content: content.to_string(),
        sig: "c".repeat(128),
    }
}

fn expect_single_notice(outcome: FrameOutcome, text: &str) {
    match outcome {
        FrameOutcome::Respond(msgs) => {
            assert_eq!(msgs.len(), 1);
            match &msgs[0] {
                RelayMessage::Notice { message } => assert_eq!(message, text),
                other => panic!("expected a notice, got {:?}", other),
            }
        }
        other => panic!("expected a response, got {:?}", other),
    }
}

#[test]
fn oversized_content_gets_notice_and_no_save() {
    let e = plain_event(&"x".repeat(11), 100, 1, vec![]);
    let outcome = handle_event_client_frame(e, 10, 100, 5);
    expect_single_notice(outcome, "event content exceeds max length");
}

#[test]
fn expired_event_gets_notice_and_no_save() {
    let tags = vec![vec!["expiration".to_string(), "99".to_string()]];
    let e = plain_event("hi", 50, 1, tags);
    let outcome = handle_event_client_frame(e, 1000, 100, 5);
    expect_single_notice(outcome, "event has expired");
}

#[test]
fn unexpired_marker_is_not_rejected_for_expiry() {
    let tags = vec![vec!["expiration".to_string(), "101".to_string()]];
    let e = plain_event("hi", 50, 1, tags);
    let outcome = handle_event_client_frame(e, 1000, 100, 5);
    // the marker lies in the future, so the next failing stage speaks:
    // the fabricated signature
    expect_single_notice(outcome, "event verification failed");
}

#[test]
fn future_created_at_gets_notice_and_no_save() {
    let e = plain_event("hi", 106, 1, vec![]);
    let outcome = handle_event_client_frame(e, 1000, 100, 5);
    expect_single_notice(outcome, "event created_at field is out of acceptable range");
}

#[test]
fn invalid_signature_gets_notice_and_no_save() {
    let e = plain_event("hi", 100, 1, vec![]);
    let outcome = handle_event_client_frame(e, 1000, 100, 5);
    expect_single_notice(outcome, "event verification failed");
}

fn signed_event(kind: u16, content: &str, created_at: u64, tags: Vec<Vec<String>>) -> Event {
    let keys = nostr::key::Keys::parse(
        "0000000000000000000000000000000000000000000000000000000000000001",
    )
    .unwrap();
    let nostr_tags: Vec<nostr::event::Tag> = tags
        .iter()
        .map(|t| nostr::event::Tag::parse(t.clone()).unwrap())
        .collect();
    let ev = nostr::event::EventBuilder::new(nostr::event::Kind::from(kind), content)
        .custom_created_at(nostr::types::Timestamp::from_secs(created_at))
        .tags(nostr_tags)
        .finalize(&keys)
        .unwrap();
    Event {
        id: ev.id.to_hex(),
        pubkey: ev.pubkey.to_hex(),
        created_at: ev.created_at.as_secs(),
        kind: ev.kind.as_u16(),
        tags: ev.tags.iter().map(|t| t.as_slice().to_vec()).collect(),
        content: ev.content.clone(),
        sig: ev.sig.to_hex(),
    }
}

#[test]
fn well_signed_event_is_admitted() {
    let e = signed_event(1, "hello relay", 1000, vec![]);
    let outcome = handle_event_client_frame(e.clone(), 8196, 1000, 30);
    match outcome {
        FrameOutcome::NeedsSave(saved) => assert_eq!(saved, e),
        other => panic!("expected the event to be admitted, got {:?}", other),
    }
}

#[test]
fn tampered_signed_event_is_refused() {
    let mut e = signed_event(1, "hello relay", 1000, vec![]);
    e.content = "hello relay!".to_string();
    let outcome = handle_event_client_frame(e, 8196, 1000, 30);
    expect_single_notice(outcome, "event verification failed");
}

#[test]
fn accepted_event_yields_single_ok() {
    let e = plain_event("hi", 100, 1, vec![]);
    let (msgs, delete) = handle_save_outcome(&e, SaveOutcome::Success);
    assert!(delete.is_none());
    assert_eq!(msgs.len(), 1);
    match &msgs[0] {
        RelayMessage::Okay { event_id, accepted, message } => {
            assert_eq!(event_id, &e.id);
            assert!(*accepted);
            assert_eq!(message, "hi");
        }
        other => panic!("expected OK, got {:?}", other),
    }
}

#[test]
fn rejected_event_yields_notice() {
    let e = plain_event("hi", 100, 1, vec![]);
    let m = handle_event_client_message(&e, SaveOutcome::Rejected(RejectionReason::Duplicate));
    assert_eq!(
        m,
        RelayMessage::Notice { message: "duplicate event".to_string() }
    );
}

#[test]
fn deletion_filter_is_scoped_to_author() {
    let id1 = "1".repeat(64);
    let id2 = "2".repeat(64);
    let tags = vec![
        vec!["e".to_string(), id1.clone()],
        vec!["k".to_string(), "1".to_string()],
        vec!["e".to_string(), "not-an-id".to_string()],
        vec!["e".to_string(), id2.clone()],
    ];
    let e = plain_event("", 100, 5, tags);
    let (msgs, delete) = handle_event_deletion_client_message(&e, SaveOutcome::Success);
    assert_eq!(msgs.len(), 1);
    match &msgs[0] {
        RelayMessage::Okay { event_id, accepted, message } => {
            assert_eq!(event_id, &e.id);
            assert!(*accepted);
            assert_eq!(message, "deletion event stored");
        }
        other => panic!("expected OK, got {:?}", other),
    }
    let filter = delete.expect("a stored deletion event must delete");
    assert_eq!(filter.authors, Some(vec![e.pubkey.clone()]));
    assert_eq!(filter.ids, Some(vec![id1, id2]));
    assert_eq!(filter.kinds, None);
    assert_eq!(filter.since, None);
    assert_eq!(filter.until, None);
    assert_eq!(filter.limit, None);
    assert!(filter.tag_queries.is_empty());
}

#[test]
fn rejected_deletion_triggers_nothing() {
    let tags = vec![vec!["e".to_string(), "3".repeat(64)]];
    let e = plain_event("", 100, 5, tags);
    let (msgs, delete) =
        handle_event_deletion_client_message(&e, SaveOutcome::Rejected(RejectionReason::Expired));
    assert!(delete.is_none());
    assert_eq!(
        msgs,
        vec![RelayMessage::Notice { message: "expired event".to_string() }]
    );
}

#[test]
fn deletion_goes_through_save_outcome_dispatch() {
    let e = plain_event("", 100, 5, vec![vec!["e".to_string(), "4".repeat(64)]]);
    let (_msgs, delete) = handle_save_outcome(&e, SaveOutcome::Success);
    assert!(delete.is_some());
}

#[test]
fn req_yields_events_then_eose_then_closed() {
    let sub = "sub1".to_string();
    let e1 = plain_event("one", 10, 1, vec![]);
    let e2 = plain_event("two", 20, 1, vec![]);
    let msgs = handle_req_client_message(&sub, vec![e1.clone(), e2.clone()]);
    assert_eq!(msgs.len(), 4);
    assert_eq!(
        msgs[0],
        RelayMessage::Event { subscription_id: sub.clone(), event: e1 }
    );
    assert_eq!(
        msgs[1],
        RelayMessage::Event { subscription_id: sub.clone(), event: e2 }
    );
    assert_eq!(msgs[2], RelayMessage::Eose { subscription_id: sub.clone() });
    assert_eq!(
        msgs[3],
        RelayMessage::Closed { subscription_id: sub.clone(), message: String::new() }
    );
}

#[test]
fn req_with_no_matches_yields_eose_then_closed() {
    let sub = "empty".to_string();
    let msgs = handle_req_client_message(&sub, vec![]);
    assert_eq!(msgs.len(), 2);
    assert_eq!(msgs[0], RelayMessage::Eose { subscription_id: sub.clone() });
    assert_eq!(
        msgs[1],
        RelayMessage::Closed { subscription_id: sub, message: String::new() }
    );
}

#[test]
fn close_yields_single_closed() {
    let m = handle_close_client_message("s9".to_string());
    assert_eq!(
        m,
        RelayMessage::Closed { subscription_id: "s9".to_string(), message: String::new() }
    );
}

#[test]
fn unsupported_message_yields_notice() {
    let m = handle_unsupported_message("binary messages are not supported");
    assert_eq!(
        m,
        RelayMessage::Notice { message: "binary messages are not supported".to_string() }
    );
}

#[test]
fn text_frame_close_is_answered_directly() {
    let outcome = handle_text_message("[\"CLOSE\",\"abc\"]", 8196, 100, 5);
    match outcome {
        FrameOutcome::Respond(msgs) => {
            assert_eq!(
                msgs,
                vec![RelayMessage::Closed {
                    subscription_id: "abc".to_string(),
                    message: String::new()
                }]
            );
        }
        other => panic!("expected a response, got {:?}", other),
    }
}

#[test]
fn text_frame_req_asks_for_a_query() {
    let outcome = handle_text_message("[\"REQ\",\"s\",{\"kinds\":[1],\"limit\":10}]", 8196, 100, 5);
    match outcome {
        FrameOutcome::NeedsQuery { subscription_id, filter } => {
            assert_eq!(subscription_id, "s");
            assert_eq!(filter.kinds, Some(vec![1]));
            assert_eq!(filter.limit, Some(10));
            assert_eq!(filter.ids, None);
        }
        other => panic!("expected a query, got {:?}", other),
    }
}

#[test]
fn malformed_frame_is_answered_with_notice() {
    let outcome = handle_text_message("not json", 8196, 100, 5);
    expect_single_notice(outcome, "malformed message");
}

#[test]
fn unknown_discriminator_is_answered_with_notice() {
    let outcome = handle_text_message("[\"NEG-OPEN\",\"x\"]", 8196, 100, 5);
    expect_single_notice(outcome, "unsupported message");
}

#[test]
fn count_frame_is_unsupported() {
    let outcome = handle_text_message("[\"COUNT\",\"s\",{}]", 8196, 100, 5);
    expect_single_notice(outcome, "unsupported message");
}
