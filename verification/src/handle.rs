use vstd::prelude::*;
use vstd::string::StringExecFns;
use crate::event::{Event, EventV, DELETION_KIND};
use crate::filter::{Filter, FilterV, TagQueryV};
use crate::messages::{
    ClientMessage, ClientMessageV,
    RelayMessage, RelayMessageV, SaveOutcome, spec_rejection_text, rejection_notice_text,
};
use crate::numbers::{check_hex_id, is_hex_id};
use crate::strings::{string_to_chars, str_eq};
use crate::validate::{ValidationError, spec_validate, validate_event};

verus! {

/// What the pipeline decided about one inbound message: either the responses
/// are already complete, or the store must be consulted first.
#[derive(Debug, Clone, PartialEq, Eq)]
pub enum FrameOutcome {
    /// Send these responses; the store is not involved.
    Respond(Vec<RelayMessage>),
    /// The event passed admission: save it, then hand the save outcome to
    /// [`handle_save_outcome`].
    NeedsSave(Event),
    /// Run this one-shot query, then hand the results to
    /// [`handle_req_client_message`].
    NeedsQuery { subscription_id: String, filter: Filter },
}

/// Mathematical model of a [`FrameOutcome`].
pub ghost enum FrameOutcomeV {
    Respond(Seq<RelayMessageV>),
    NeedsSave(EventV),
    NeedsQuery { subscription_id: Seq<char>, filter: FilterV },
}

impl View for FrameOutcome {
    type V = FrameOutcomeV;

    open spec fn view(&self) -> FrameOutcomeV {
        match self {
            FrameOutcome::Respond(ms) => FrameOutcomeV::Respond(ms.deep_view()),
            FrameOutcome::NeedsSave(e) => FrameOutcomeV::NeedsSave(e@),
            FrameOutcome::NeedsQuery { subscription_id, filter } => FrameOutcomeV::NeedsQuery {
                subscription_id: subscription_id@,
                filter: filter@,
            },
        }
    }
}

/// The fixed notice text for each admission failure.
pub open spec fn spec_validation_notice(err: ValidationError) -> Seq<char> {
    match err {
        ValidationError::ContentTooLong => "event content exceeds max length"@,
        ValidationError::Expired => "event has expired"@,
        ValidationError::CreatedAtTooFar => "event created_at field is out of acceptable range"@,
        ValidationError::InvalidSignature => "event verification failed"@,
    }
}

/// Maps an admission failure to its notice text.
pub fn validation_notice_text(err: ValidationError) -> (s: &'static str)
    ensures
        s@ == spec_validation_notice(err),
{
    match err {
        ValidationError::ContentTooLong => "event content exceeds max length",
        ValidationError::Expired => "event has expired",
        ValidationError::CreatedAtTooFar => "event created_at field is out of acceptable range",
        ValidationError::InvalidSignature => "event verification failed",
    }
}

/// What the pipeline decides for a submitted event: a single notice when an
/// admission stage fails, else hand the event to the store.
pub open spec fn spec_handle_event(
    e: EventV,
    max_content_length: u64,
    now: u64,
    reject_future_seconds: u64,
) -> FrameOutcomeV {
    match spec_validate(e, max_content_length, now, reject_future_seconds) {
        Err(err) => FrameOutcomeV::Respond(
            seq![RelayMessageV::Notice { message: spec_validation_notice(err) }],
        ),
        Ok(_) => FrameOutcomeV::NeedsSave(e),
    }
}

/// Runs admission on a submitted event and decides what happens next.
pub fn handle_event_client_frame(
    e: Event,
    max_content_length: u64,
    now: u64,
    reject_future_seconds: u64,
) -> (r: FrameOutcome)
    ensures
        r@ == spec_handle_event(e@, max_content_length, now, reject_future_seconds),
{
    match validate_event(&e, max_content_length, now, reject_future_seconds) {
        Err(err) => {
            let msg = RelayMessage::Notice {
                message: String::from_str(validation_notice_text(err)),
            };
            let msgs = vec![msg];
            proof {
                assert(msgs.deep_view() =~= seq![
                    RelayMessageV::Notice {
                        message: spec_validation_notice(err),
                    },
                ]);
            }
            FrameOutcome::Respond(msgs)
        },
        Ok(_) => FrameOutcome::NeedsSave(e),
    }
}

/// The response to a plain (non-deletion) event's save outcome: an `OK`
/// acknowledging storage, or a notice naming the rejection.
pub open spec fn spec_event_message(e: EventV, outcome: SaveOutcome) -> RelayMessageV {
    match outcome {
        SaveOutcome::Success => RelayMessageV::Okay {
            event_id: e.id,
            accepted: true,
            message: e.content,
        },
        SaveOutcome::Rejected(reason) => RelayMessageV::Notice {
            message: spec_rejection_text(reason),
        },
    }
}

/// Builds the response for a plain event once the store has spoken.
pub fn handle_event_client_message(e: &Event, outcome: SaveOutcome) -> (m: RelayMessage)
    ensures
        m@ == spec_event_message(e@, outcome),
{
    match outcome {
        SaveOutcome::Success => RelayMessage::Okay {
            event_id: e.id.clone(),
            accepted: true,
            message: e.content.clone(),
        },
        SaveOutcome::Rejected(reason) => RelayMessage::Notice {
            message: String::from_str(rejection_notice_text(reason)),
        },
    }
}

/// What one tag contributes to the set of event ids a deletion request names:
/// the first argument of an `e` tag, when it is a well-formed id.
pub open spec fn tag_e_contrib(t: Seq<Seq<char>>) -> Seq<Seq<char>> {
    if t.len() >= 2 && t[0] == "e"@ && is_hex_id(t[1]) {
        seq![t[1]]
    } else {
        Seq::empty()
    }
}

/// The event ids a deletion request names through its `e` tags, in tag order;
/// malformed tag arguments are skipped, not errors.
pub open spec fn sp_e_tag_ids(tags: Seq<Seq<Seq<char>>>) -> Seq<Seq<char>>
    decreases tags.len(),
{
    if tags.len() == 0 {
        Seq::empty()
    } else {
        sp_e_tag_ids(tags.drop_last()) + tag_e_contrib(tags.last())
    }
}

/// Collects the event ids a deletion request names through its `e` tags.
pub fn deletion_event_ids(tags: &Vec<Vec<String>>) -> (r: Vec<String>)
    ensures
        r.deep_view() == sp_e_tag_ids(tags.deep_view()),
{
    let ghost all: Seq<Seq<Seq<char>>> = tags.deep_view();
    let mut r: Vec<String> = Vec::new();
    proof {
        assert(r.deep_view() =~= sp_e_tag_ids(all.take(0)));
    }
    let mut i: usize = 0;
    while i < tags.len()
        invariant
            0 <= i <= tags@.len(),
            all == tags.deep_view(),
            all.len() == tags@.len(),
            forall|j: int| 0 <= j < all.len() ==> all[j] == #[trigger] tags@[j].deep_view(),
            r.deep_view() == sp_e_tag_ids(all.take(i as int)),
        decreases tags@.len() - i,
    {
        let tag = &tags[i];
        proof {
            assert(all.take(i + 1).drop_last() =~= all.take(i as int));
            assert(all.take(i + 1).last() == all[i as int]);
            assert(forall|j: int| 0 <= j < all[i as int].len()
                ==> all[i as int][j] == #[trigger] tag@[j]@);
        }
        if tag.len() >= 2 && str_eq(tag[0].as_str(), "e") {
            let id_chars = string_to_chars(tag[1].as_str());
            if check_hex_id(&id_chars) {
                let ghost before = r.deep_view();
                r.push(tag[1].clone());
                proof {
                    assert(r.deep_view() =~= before + seq![all[i as int][1]]);
                }
            }
        }
        proof {
            assert(r.deep_view() =~= sp_e_tag_ids(all.take(i + 1)));
        }
        i = i + 1;
    }
    proof {
        assert(all.take(tags@.len() as int) =~= all);
    }
    r
}

/// The filter a deletion request hands to the store's delete operation:
/// scoped to the deletion event's own author and to the ids its `e` tags
/// name. The author constraint is the authorization invariant — no other
/// author's events may be touched.
pub open spec fn spec_deletion_filter(e: EventV) -> FilterV {
    FilterV {
        ids: Some(sp_e_tag_ids(e.tags)),
        authors: Some(seq![e.pubkey]),
        kinds: None,
        since: None,
        until: None,
        limit: None,
        tag_queries: Seq::<TagQueryV>::empty(),
    }
}

/// The responses to a deletion event's save outcome: on success one `OK` and
/// the scoped delete filter; on rejection one notice and no deletion at all.
pub open spec fn spec_deletion_messages(e: EventV, outcome: SaveOutcome) -> Seq<RelayMessageV> {
    match outcome {
        SaveOutcome::Success => seq![
            RelayMessageV::Okay {
                event_id: e.id,
                accepted: true,
                message: "deletion event stored"@,
            },
        ],
        SaveOutcome::Rejected(reason) => seq![
            RelayMessageV::Notice { message: spec_rejection_text(reason) },
        ],
    }
}

/// The delete operation a deletion event triggers, if any.
pub open spec fn spec_deletion_delete(e: EventV, outcome: SaveOutcome) -> Option<FilterV> {
    match outcome {
        SaveOutcome::Success => Some(spec_deletion_filter(e)),
        SaveOutcome::Rejected(_) => None,
    }
}

/// Resolves a deletion request once its own storage has been attempted. A
/// deletion event that could not be stored is answered with a notice and is
/// not acted upon; a stored one yields an `OK` and a delete filter scoped to
/// the author's own events.
pub fn handle_event_deletion_client_message(e: &Event, outcome: SaveOutcome) -> (r: (
    Vec<RelayMessage>,
    Option<Filter>,
))
    ensures
        r.0.deep_view() == spec_deletion_messages(e@, outcome),
        r.1.deep_view() == spec_deletion_delete(e@, outcome),
{
    match outcome {
        SaveOutcome::Success => {
            let msg = RelayMessage::Okay {
                event_id: e.id.clone(),
                accepted: true,
                message: String::from_str("deletion event stored"),
            };
            let msgs = vec![msg];
            let ids = deletion_event_ids(&e.tags);
            let authors = vec![e.pubkey.clone()];
            let filter = Filter {
                ids: Some(ids),
                authors: Some(authors),
                kinds: None,
                since: None,
                until: None,
                limit: None,
                tag_queries: Vec::new(),
            };
            proof {
                assert(msgs.deep_view() =~= spec_deletion_messages(e@, outcome));
                assert(filter.tag_queries.deep_view() =~= Seq::<TagQueryV>::empty());
                assert(authors.deep_view() =~= seq![e.pubkey@]);
                assert(filter@ == spec_deletion_filter(e@));
            }
            (msgs, Some(filter))
        },
        SaveOutcome::Rejected(reason) => {
            let msg = RelayMessage::Notice {
                message: String::from_str(rejection_notice_text(reason)),
            };
            let msgs = vec![msg];
            proof {
                assert(msgs.deep_view() =~= spec_deletion_messages(e@, outcome));
            }
            (msgs, None)
        },
    }
}

/// The follow-up to a save: the responses to send and, for a stored deletion
/// request, the delete operation to run.
pub open spec fn spec_handle_save(e: EventV, outcome: SaveOutcome) -> (
    Seq<RelayMessageV>,
    Option<FilterV>,
) {
    if e.is_deletion() {
        (spec_deletion_messages(e, outcome), spec_deletion_delete(e, outcome))
    } else {
        (seq![spec_event_message(e, outcome)], None)
    }
}

/// Builds all follow-up work for an admitted event once the store has spoken:
/// deletion requests resolve their `e` tags, plain events are acknowledged.
pub fn handle_save_outcome(e: &Event, outcome: SaveOutcome) -> (r: (
    Vec<RelayMessage>,
    Option<Filter>,
))
    ensures
        r.0.deep_view() == spec_handle_save(e@, outcome).0,
        r.1.deep_view() == spec_handle_save(e@, outcome).1,
{
    if e.kind == DELETION_KIND {
        handle_event_deletion_client_message(e, outcome)
    } else {
        let msg = handle_event_client_message(e, outcome);
        let msgs = vec![msg];
        proof {
            assert(msgs.deep_view() =~= seq![spec_event_message(e@, outcome)]);
        }
        (msgs, None)
    }
}

/// The `EVENT` responses for a query's results, one per stored event, in
/// store order.
pub open spec fn spec_event_msgs(sid: Seq<char>, evs: Seq<EventV>) -> Seq<RelayMessageV> {
    Seq::new(evs.len(), |i: int| RelayMessageV::Event { subscription_id: sid, event: evs[i] })
}

/// The full answer to a one-shot query: every matching event in store order,
/// then exactly one `EOSE`, then exactly one `CLOSED` with an empty reason.
pub open spec fn spec_handle_req(sid: Seq<char>, evs: Seq<EventV>) -> Seq<RelayMessageV> {
    spec_event_msgs(sid, evs) + seq![
        RelayMessageV::Eose { subscription_id: sid },
        RelayMessageV::Closed { subscription_id: sid, message: Seq::<char>::empty() },
    ]
}

/// Shapes the responses for a one-shot query from the store's results.
pub fn handle_req_client_message(subscription_id: &String, events: Vec<Event>) -> (r: Vec<
    RelayMessage,
>)
    ensures
        r.deep_view() == spec_handle_req(subscription_id@, events.deep_view()),
{
    let ghost orig: Seq<EventV> = events.deep_view();
    let mut rest = events;
    let mut r: Vec<RelayMessage> = Vec::new();
    while rest.len() > 0
        invariant
            rest.deep_view() == orig.skip(orig.len() - rest@.len()),
            rest@.len() <= orig.len(),
            r.deep_view() == spec_event_msgs(subscription_id@, orig.take(orig.len() - rest@.len())),
        decreases rest@.len(),
    {
        let ghost k = orig.len() - rest@.len();
        let ghost prev = rest;
        let ev = rest.remove(0);
        proof {
            assert(ev@ == prev.deep_view()[0]);
            assert(ev@ == orig.skip(k)[0]);
            assert(orig.skip(k)[0] == orig[k]);
            assert(forall|i: int| 0 <= i < rest@.len() ==> rest@[i] == prev@[i + 1]);
            assert(forall|i: int| 0 <= i < rest@.len()
                ==> rest.deep_view()[i] == prev.deep_view()[i + 1]);
            assert(rest.deep_view() =~= orig.skip(k + 1));
        }
        let ghost before = r.deep_view();
        r.push(RelayMessage::Event { subscription_id: subscription_id.clone(), event: ev });
        proof {
            assert(r.deep_view() =~= before.push(
                RelayMessageV::Event { subscription_id: subscription_id@, event: orig[k] },
            ));
            assert(r.deep_view() =~= spec_event_msgs(subscription_id@, orig.take(k + 1)));
        }
    }
    proof {
        assert(orig.take(orig.len() - rest@.len()) =~= orig);
    }
    let ghost before_tail = r.deep_view();
    r.push(RelayMessage::Eose { subscription_id: subscription_id.clone() });
    r.push(RelayMessage::Closed {
        subscription_id: subscription_id.clone(),
        message: String::new(),
    });
    proof {
        assert(r.deep_view() =~= before_tail + seq![
            RelayMessageV::Eose { subscription_id: subscription_id@ },
            RelayMessageV::Closed {
                subscription_id: subscription_id@,
                message: Seq::<char>::empty(),
            },
        ]);
    }
    r
}

/// Answers a `CLOSE`: exactly one `CLOSED` with an empty reason and no store
/// interaction — the function takes nothing but the subscription id.
pub fn handle_close_client_message(subscription_id: String) -> (m: RelayMessage)
    ensures
        m@ == (RelayMessageV::Closed {
            subscription_id: subscription_id@,
            message: Seq::<char>::empty(),
        }),
{
    RelayMessage::Closed { subscription_id, message: String::new() }
}

/// Answers a message kind the relay does not act upon.
pub fn handle_unsupported_message(message: &str) -> (m: RelayMessage)
    ensures
        m@ == (RelayMessageV::Notice { message: message@ }),
{
    RelayMessage::Notice { message: message.to_owned() }
}

/// The notice text for a frame that could not be decoded.
pub open spec fn spec_decode_notice(err: crate::messages::DecodeError) -> Seq<char> {
    match err {
        crate::messages::DecodeError::Malformed => "malformed message"@,
        crate::messages::DecodeError::UnknownMessageType => "unsupported message"@,
    }
}

/// What the pipeline decides for one inbound text frame: decode it, then
/// run admission for events, answer closes directly, turn queries over to the
/// store, and meet anything else with a notice.
pub open spec fn spec_handle_frame(
    text: Seq<char>,
    max_content_length: u64,
    now: u64,
    reject_future_seconds: u64,
) -> FrameOutcomeV {
    match crate::decode::sp_decode_client(text) {
        Ok(ClientMessageV::Event(e)) => spec_handle_event(
            e,
            max_content_length,
            now,
            reject_future_seconds,
        ),
        Ok(ClientMessageV::Req { subscription_id, filter }) => FrameOutcomeV::NeedsQuery {
            subscription_id,
            filter,
        },
        Ok(ClientMessageV::Close(sid)) => FrameOutcomeV::Respond(
            seq![
                RelayMessageV::Closed { subscription_id: sid, message: Seq::<char>::empty() },
            ],
        ),
        Ok(ClientMessageV::Count { subscription_id, filter }) => FrameOutcomeV::Respond(
            seq![RelayMessageV::Notice { message: "unsupported message"@ }],
        ),
        Ok(ClientMessageV::Auth(e)) => FrameOutcomeV::Respond(
            seq![RelayMessageV::Notice { message: "unsupported message"@ }],
        ),
        Err(err) => FrameOutcomeV::Respond(
            seq![RelayMessageV::Notice { message: spec_decode_notice(err) }],
        ),
    }
}

/// Handles one inbound text frame end to end, up to the store boundary:
/// decoding, admission, and dispatch. Store work is handed back to the caller
/// as a [`FrameOutcome`].
pub fn handle_text_message(
    text: &str,
    max_content_length: u64,
    now: u64,
    reject_future_seconds: u64,
) -> (r: FrameOutcome)
    ensures
        r@ == spec_handle_frame(text@, max_content_length, now, reject_future_seconds),
{
    match crate::decode::decode_client_message(text) {
        Ok(ClientMessage::Event(e)) => handle_event_client_frame(
            e,
            max_content_length,
            now,
            reject_future_seconds,
        ),
        Ok(ClientMessage::Req { subscription_id, filter }) => FrameOutcome::NeedsQuery {
            subscription_id,
            filter,
        },
        Ok(ClientMessage::Close(sid)) => {
            let msgs = vec![handle_close_client_message(sid)];
            proof {
                assert(msgs.deep_view() =~= (spec_handle_frame(
                    text@,
                    max_content_length,
                    now,
                    reject_future_seconds,
                ))->Respond_0);
            }
            FrameOutcome::Respond(msgs)
        },
        Ok(ClientMessage::Count { subscription_id: _, filter: _ }) => {
            let msgs = vec![handle_unsupported_message("unsupported message")];
            proof {
                assert(msgs.deep_view() =~= seq![
                    RelayMessageV::Notice { message: "unsupported message"@ },
                ]);
            }
            FrameOutcome::Respond(msgs)
        },
        Ok(ClientMessage::Auth(_)) => {
            let msgs = vec![handle_unsupported_message("unsupported message")];
            proof {
                assert(msgs.deep_view() =~= seq![
                    RelayMessageV::Notice { message: "unsupported message"@ },
                ]);
            }
            FrameOutcome::Respond(msgs)
        },
        Err(err) => {
            let notice = match err {
                crate::messages::DecodeError::Malformed => handle_unsupported_message(
                    "malformed message",
                ),
                crate::messages::DecodeError::UnknownMessageType => handle_unsupported_message(
                    "unsupported message",
                ),
            };
            let msgs = vec![notice];
            proof {
                assert(msgs.deep_view() =~= seq![
                    RelayMessageV::Notice { message: spec_decode_notice(err) },
                ]);
            }
            FrameOutcome::Respond(msgs)
        },
    }
}

/// Whether an outcome is a single notice and nothing else.
pub open spec fn is_single_notice(o: FrameOutcomeV) -> bool {
    &&& o is Respond
    &&& o->Respond_0.len() == 1
    &&& o->Respond_0[0] is Notice
}

/// An event whose content exceeds the configured maximum is answered with a
/// notice and is never handed to the store.
pub proof fn lemma_oversized_content_rejected(
    e: EventV,
    max_content_length: u64,
    now: u64,
    reject_future_seconds: u64,
)
    requires
        vstd::utf8::encode_utf8(e.content).len() > max_content_length,
    ensures
        spec_handle_event(e, max_content_length, now, reject_future_seconds)
            == FrameOutcomeV::Respond(
            seq![RelayMessageV::Notice { message: "event content exceeds max length"@ }],
        ),
        !(spec_handle_event(e, max_content_length, now, reject_future_seconds) is NeedsSave),
{
}

/// An event already expired, or created further in the future than the
/// configured tolerance, is answered with a notice and is never handed to the
/// store.
pub proof fn lemma_out_of_time_rejected(
    e: EventV,
    max_content_length: u64,
    now: u64,
    reject_future_seconds: u64,
)
    requires
        crate::validate::spec_is_expired(e, now) || e.created_at > now + reject_future_seconds,
    ensures
        is_single_notice(spec_handle_event(e, max_content_length, now, reject_future_seconds)),
        !(spec_handle_event(e, max_content_length, now, reject_future_seconds) is NeedsSave),
{
}

/// An event whose signature does not verify is answered with a notice and is
/// never handed to the store.
pub proof fn lemma_invalid_signature_rejected(
    e: EventV,
    max_content_length: u64,
    now: u64,
    reject_future_seconds: u64,
)
    requires
        !crate::event::event_sig_valid(e),
    ensures
        is_single_notice(spec_handle_event(e, max_content_length, now, reject_future_seconds)),
        !(spec_handle_event(e, max_content_length, now, reject_future_seconds) is NeedsSave),
{
}

/// A non-deletion event that the store accepts yields exactly one `OK`
/// response with `accepted` set, and triggers no deletion.
pub proof fn lemma_accepted_event_single_ok(e: EventV)
    requires
        !e.is_deletion(),
    ensures
        spec_handle_save(e, SaveOutcome::Success).0 == seq![
            RelayMessageV::Okay { event_id: e.id, accepted: true, message: e.content },
        ],
        spec_handle_save(e, SaveOutcome::Success).1 is None,
{
}

/// A stored deletion request deletes only through a filter scoped to its own
/// author and to the ids its `e` tags name: events of any other author are
/// out of the filter's reach.
pub proof fn lemma_deletion_scoped_to_author(e: EventV)
    requires
        e.is_deletion(),
    ensures
        spec_handle_save(e, SaveOutcome::Success).1 == Some(spec_deletion_filter(e)),
        spec_deletion_filter(e).authors == Some(seq![e.pubkey]),
        spec_deletion_filter(e).ids == Some(sp_e_tag_ids(e.tags)),
        spec_deletion_filter(e).kinds is None,
        spec_deletion_filter(e).since is None,
        spec_deletion_filter(e).until is None,
        spec_deletion_filter(e).limit is None,
        spec_deletion_filter(e).tag_queries.len() == 0,
{
}

/// A rejected deletion request is answered with a notice alone and triggers
/// no deletion.
pub proof fn lemma_rejected_deletion_inert(e: EventV, reason: crate::messages::RejectionReason)
    requires
        e.is_deletion(),
    ensures
        spec_handle_save(e, SaveOutcome::Rejected(reason)).0 == seq![
            RelayMessageV::Notice { message: spec_rejection_text(reason) },
        ],
        spec_handle_save(e, SaveOutcome::Rejected(reason)).1 is None,
{
}

/// A query matching exactly K stored events is answered by exactly K `EVENT`
/// responses in store order, then one `EOSE`, then one `CLOSED`, all tagged
/// with the query's subscription id — and nothing after the `CLOSED`.
pub proof fn lemma_req_response_shape(sid: Seq<char>, evs: Seq<EventV>)
    ensures
        spec_handle_req(sid, evs).len() == evs.len() + 2,
        forall|i: int| 0 <= i < evs.len() ==> spec_handle_req(sid, evs)[i]
            == (RelayMessageV::Event { subscription_id: sid, event: evs[i] }),
        spec_handle_req(sid, evs)[evs.len() as int] == (RelayMessageV::Eose {
            subscription_id: sid,
        }),
        spec_handle_req(sid, evs)[evs.len() as int + 1] == (RelayMessageV::Closed {
            subscription_id: sid,
            message: Seq::<char>::empty(),
        }),
{
}

} // verus!
