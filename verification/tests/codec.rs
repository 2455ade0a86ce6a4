use bolt::decode::decode_client_message;
use nostr::event::FinalizeEvent;
use bolt::encode::encode_relay_message;
use bolt::event::Event;
use bolt::messages::{ClientMessage, DecodeError, RelayMessage};

fn sample_event() -> Event {
    Event {
        id: "d".repeat(64),
        pubkey: "e".repeat(64),
        created_at: 1700000000,
        kind: 1,
        tags: vec![
            vec!["e".to_string(), "f".repeat(64)],
            vec!["expiration".to_string(), "1800000000".to_string()],
        ],
        content: "hello \"world\"\nbye".to_string(),
        sig: "1".repeat(128),
    }
}

#[test]
fn encodes_notice_exactly() {
    let m = RelayMessage::Notice { message: "watch out".to_string() };
    assert_eq!(encode_relay_message(&m), "[\"NOTICE\",\"watch out\"]");
}

#[test]
fn encodes_ok_exactly() {
    let m = RelayMessage::Okay {
        event_id: "ab".to_string(),
        accepted: true,
        message: "saved".to_string(),
    };
    assert_eq!(encode_relay_message(&m), "[\"OK\",\"ab\",true,\"saved\"]");
    let m2 = RelayMessage::Okay {
        event_id: "ab".to_string(),
        accepted: false,
        message: "no".to_string(),
    };
    assert_eq!(encode_relay_message(&m2), "[\"OK\",\"ab\",false,\"no\"]");
}

#[test]
fn encodes_eose_and_closed_exactly() {
    let m = RelayMessage::Eose { subscription_id: "s1".to_string() };
    assert_eq!(encode_relay_message(&m), "[\"EOSE\",\"s1\"]");
    let m2 = RelayMessage::Closed {
        subscription_id: "s1".to_string(),
        message: String::new(),
    };
    assert_eq!(encode_relay_message(&m2), "[\"CLOSED\",\"s1\",\"\"]");
}

#[test]
fn escapes_strings_in_the_wire_form() {
    let m = RelayMessage::Notice { message: "a\"b\\c\nd\te\u{1}".to_string() };
    assert_eq!(
        encode_relay_message(&m),
        "[\"NOTICE\",\"a\\\"b\\\\c\\nd\\te\\u0001\"]"
    );
}

#[test]
fn encodes_event_message_exactly() {
    let m = RelayMessage::Event {
        subscription_id: "s".to_string(),
        event: Event {
            id: "aa".to_string(),
            pubkey: "bb".to_string(),
            created_at: 42,
            kind: 5,
            tags: vec![vec!["e".to_string(), "cc".to_string()], vec![]],
            content: "x".to_string(),
            sig: "dd".to_string(),
        },
    };
    assert_eq!(
        encode_relay_message(&m),
        "[\"EVENT\",\"s\",{\"id\":\"aa\",\"pubkey\":\"bb\",\"created_at\":42,\"kind\":5,\
         \"tags\":[[\"e\",\"cc\"],[]],\"content\":\"x\",\"sig\":\"dd\"}]"
    );
}

// An independent, JSON-compliant reader reproduces the discriminator and the
// field values from the encoder's output.
#[test]
fn round_trip_through_independent_json_reader() {
    let e = sample_event();
    let messages = vec![
        RelayMessage::Okay {
            event_id: e.id.clone(),
            accepted: true,
            message: "stored".to_string(),
        },
        RelayMessage::Notice { message: "a \"quoted\" notice\n".to_string() },
        RelayMessage::Event { subscription_id: "sub".to_string(), event: e.clone() },
        RelayMessage::Eose { subscription_id: "sub".to_string() },
        RelayMessage::Closed { subscription_id: "sub".to_string(), message: String::new() },
    ];
    for m in messages {
        let wire = encode_relay_message(&m);
        let v: serde_json::Value = serde_json::from_str(&wire).unwrap();
        let arr = v.as_array().unwrap();
        match &m {
            RelayMessage::Okay { event_id, accepted, message } => {
                assert_eq!(arr.len(), 4);
                assert_eq!(arr[0].as_str(), Some("OK"));
                assert_eq!(arr[1].as_str(), Some(event_id.as_str()));
                assert_eq!(arr[2].as_bool(), Some(*accepted));
                assert_eq!(arr[3].as_str(), Some(message.as_str()));
            }
            RelayMessage::Notice { message } => {
                assert_eq!(arr.len(), 2);
                assert_eq!(arr[0].as_str(), Some("NOTICE"));
                assert_eq!(arr[1].as_str(), Some(message.as_str()));
            }
            RelayMessage::Event { subscription_id, event } => {
                assert_eq!(arr.len(), 3);
                assert_eq!(arr[0].as_str(), Some("EVENT"));
                assert_eq!(arr[1].as_str(), Some(subscription_id.as_str()));
                let obj = arr[2].as_object().unwrap();
                assert_eq!(obj["id"].as_str(), Some(event.id.as_str()));
                assert_eq!(obj["pubkey"].as_str(), Some(event.pubkey.as_str()));
                assert_eq!(obj["created_at"].as_u64(), Some(event.created_at));
                assert_eq!(obj["kind"].as_u64(), Some(event.kind as u64));
                assert_eq!(obj["content"].as_str(), Some(event.content.as_str()));
                assert_eq!(obj["sig"].as_str(), Some(event.sig.as_str()));
                let tags = obj["tags"].as_array().unwrap();
                assert_eq!(tags.len(), event.tags.len());
                for (wire_tag, tag) in tags.iter().zip(event.tags.iter()) {
                    let wire_tag: Vec<&str> =
                        wire_tag.as_array().unwrap().iter().map(|s| s.as_str().unwrap()).collect();
                    let tag: Vec<&str> = tag.iter().map(|s| s.as_str()).collect();
                    assert_eq!(wire_tag, tag);
                }
            }
            RelayMessage::Eose { subscription_id } => {
                assert_eq!(arr.len(), 2);
                assert_eq!(arr[0].as_str(), Some("EOSE"));
                assert_eq!(arr[1].as_str(), Some(subscription_id.as_str()));
            }
            RelayMessage::Closed { subscription_id, message } => {
                assert_eq!(arr.len(), 3);
                assert_eq!(arr[0].as_str(), Some("CLOSED"));
                assert_eq!(arr[1].as_str(), Some(subscription_id.as_str()));
                assert_eq!(arr[2].as_str(), Some(message.as_str()));
            }
        }
    }
}

#[test]
fn decodes_close_frame() {
    assert_eq!(
        decode_client_message("[\"CLOSE\",\"abc\"]"),
        Ok(ClientMessage::Close("abc".to_string()))
    );
}

#[test]
fn decodes_event_frame_written_by_nostr() {
    let keys = nostr::key::Keys::parse(
        "0000000000000000000000000000000000000000000000000000000000000002",
    )
    .unwrap();
    let ev = nostr::event::EventBuilder::new(nostr::event::Kind::from(1u16), "hi there")
        .custom_created_at(nostr::types::Timestamp::from_secs(1234567))
        .finalize(&keys)
        .unwrap();
    let frame = format!("[\"EVENT\",{}]", ev.as_json());
    match decode_client_message(&frame) {
        Ok(ClientMessage::Event(e)) => {
            assert_eq!(e.id, ev.id.to_hex());
            assert_eq!(e.pubkey, ev.pubkey.to_hex());
            assert_eq!(e.created_at, 1234567);
            assert_eq!(e.kind, 1);
            assert_eq!(e.content, "hi there");
            assert_eq!(e.sig, ev.sig.to_hex());
        }
        other => panic!("expected an event, got {:?}", other),
    }
}

#[test]
fn decodes_event_frame_with_escaped_content() {
    let keys = nostr::key::Keys::parse(
        "0000000000000000000000000000000000000000000000000000000000000003",
    )
    .unwrap();
    let content = "say \"hi\",\nthen\tleave \u{1}";
    let ev = nostr::event::EventBuilder::new(nostr::event::Kind::from(1u16), content)
        .custom_created_at(nostr::types::Timestamp::from_secs(99))
        .finalize(&keys)
        .unwrap();
    let frame = format!("[\"EVENT\",{}]", ev.as_json());
    match decode_client_message(&frame) {
        Ok(ClientMessage::Event(e)) => assert_eq!(e.content, content),
        other => panic!("expected an event, got {:?}", other),
    }
}

#[test]
fn decodes_req_with_filter_written_by_nostr() {
    let filter = nostr::filter::Filter::new()
        .kinds([nostr::event::Kind::from(1u16), nostr::event::Kind::from(5u16)])
        .since(nostr::types::Timestamp::from_secs(7))
        .limit(25);
    let frame = format!("[\"REQ\",\"s2\",{}]", serde_json::to_string(&filter).unwrap());
    match decode_client_message(&frame) {
        Ok(ClientMessage::Req { subscription_id, filter }) => {
            assert_eq!(subscription_id, "s2");
            assert_eq!(filter.kinds, Some(vec![1, 5]));
            assert_eq!(filter.since, Some(7));
            assert_eq!(filter.limit, Some(25));
        }
        other => panic!("expected a query, got {:?}", other),
    }
}

#[test]
fn decodes_req_with_filter_fields() {
    let frame = "[\"REQ\",\"s1\",{\"ids\":[\"aa\",\"bb\"],\"authors\":[\"cc\"],\"kinds\":[1,5],\
                 \"since\":10,\"until\":20,\"limit\":3,\"#e\":[\"dd\"]}]";
    match decode_client_message(frame) {
        Ok(ClientMessage::Req { subscription_id, filter }) => {
            assert_eq!(subscription_id, "s1");
            assert_eq!(filter.ids, Some(vec!["aa".to_string(), "bb".to_string()]));
            assert_eq!(filter.authors, Some(vec!["cc".to_string()]));
            assert_eq!(filter.kinds, Some(vec![1, 5]));
            assert_eq!(filter.since, Some(10));
            assert_eq!(filter.until, Some(20));
            assert_eq!(filter.limit, Some(3));
            assert_eq!(filter.tag_queries.len(), 1);
            assert_eq!(filter.tag_queries[0].letter, 'e');
            assert_eq!(filter.tag_queries[0].values, vec!["dd".to_string()]);
        }
        other => panic!("expected a query, got {:?}", other),
    }
}

#[test]
fn decodes_req_with_empty_filter() {
    match decode_client_message("[\"REQ\",\"s\",{}]") {
        Ok(ClientMessage::Req { filter, .. }) => {
            assert_eq!(filter.ids, None);
            assert_eq!(filter.authors, None);
            assert_eq!(filter.kinds, None);
            assert_eq!(filter.since, None);
            assert_eq!(filter.until, None);
            assert_eq!(filter.limit, None);
            assert!(filter.tag_queries.is_empty());
        }
        other => panic!("expected a query, got {:?}", other),
    }
}

#[test]
fn decodes_escapes_in_strings() {
    match decode_client_message("[\"CLOSE\",\"a\\\"b\\\\c\\nd\\u0001\"]") {
        Ok(ClientMessage::Close(s)) => assert_eq!(s, "a\"b\\c\nd\u{1}"),
        other => panic!("expected a close, got {:?}", other),
    }
}

#[test]
fn rejects_malformed_frames() {
    assert_eq!(decode_client_message(""), Err(DecodeError::Malformed));
    assert_eq!(decode_client_message("hello"), Err(DecodeError::Malformed));
    assert_eq!(
        decode_client_message("[\"CLOSE\",\"a\""),
        Err(DecodeError::Malformed)
    );
    assert_eq!(
        decode_client_message("[\"CLOSE\",\"a\"]trailing"),
        Err(DecodeError::Malformed)
    );
    assert_eq!(
        decode_client_message("[\"EVENT\",{\"id\":\"aa\"}]"),
        Err(DecodeError::Malformed)
    );
}

#[test]
fn reports_unknown_discriminators() {
    assert_eq!(
        decode_client_message("[\"AUCTION\",\"x\"]"),
        Err(DecodeError::UnknownMessageType)
    );
}

#[test]
fn auth_frames_are_parsed_syntactically() {
    let e = Event {
        id: "aa".to_string(),
        pubkey: "bb".to_string(),
        created_at: 7,
        kind: 22242,
        tags: vec![],
        content: String::new(),
        sig: "cc".to_string(),
    };
    let frame = "[\"AUTH\",{\"id\":\"aa\",\"pubkey\":\"bb\",\"created_at\":7,\"kind\":22242,\
                 \"tags\":[],\"content\":\"\",\"sig\":\"cc\"}]";
    assert_eq!(decode_client_message(frame), Ok(ClientMessage::Auth(e)));
}
