use vstd::prelude::*;

verus! {

/// The kind number that marks an event-deletion request.
pub const DELETION_KIND: u16 = 5;

/// A signed, timestamped content record submitted by a client.
///
/// `id` is the lowercase hex encoding of the digest of the canonical
/// serialization of the other fields; `pubkey` is the author's public key and
/// `sig` the signature over `id`, both hex-encoded. `tags` is an ordered
/// sequence of string arrays whose first element is the tag's key.
#[derive(Debug, Clone, PartialEq, Eq)]
pub struct Event {
    pub id: String,
    pub pubkey: String,
    pub created_at: u64,
    pub kind: u16,
    pub tags: Vec<Vec<String>>,
    pub content: String,
    pub sig: String,
}

/// Mathematical model of an [`Event`]: every text field as a sequence of
/// characters.
pub ghost struct EventV {
    pub id: Seq<char>,
    pub pubkey: Seq<char>,
    pub created_at: u64,
    pub kind: u16,
    pub tags: Seq<Seq<Seq<char>>>,
    pub content: Seq<char>,
    pub sig: Seq<char>,
}

impl View for Event {
    type V = EventV;

    open spec fn view(&self) -> EventV {
        EventV {
            id: self.id@,
            pubkey: self.pubkey@,
            created_at: self.created_at,
            kind: self.kind,
            tags: self.tags.deep_view(),
            content: self.content@,
            sig: self.sig@,
        }
    }
}

impl DeepView for Event {
    type V = EventV;

    open spec fn deep_view(&self) -> EventV {
        self.view()
    }
}

impl EventV {
    /// Whether the event is a deletion request.
    pub open spec fn is_deletion(self) -> bool {
        self.kind == DELETION_KIND
    }
}

/// Whether the event's id digest and signature check out. The outcome is a
/// function of the event's fields alone; only the external verifier can
/// compute it.
pub uninterp spec fn event_sig_valid(e: EventV) -> bool;

/// Relies on nostr's `Event::verify`, which recomputes the id digest from the
/// canonical fields and checks the Schnorr signature against the id and the
/// author key. Hex decoding of `id`, `pubkey` and `sig`, tag well-formedness,
/// and the verification itself are all functions of the event's fields alone;
/// an event whose fields do not decode cannot verify.
#[verifier::external_body]
pub(crate) fn verify_event(e: &Event) -> (r: bool)
    ensures
        r == event_sig_valid(e@),
{
    let id = nostr::event::EventId::from_hex(&e.id);
    let pubkey = nostr::key::PublicKey::from_hex(&e.pubkey);
    let sig = nostr::event::Signature::from_hex(&e.sig);
    let tags: Result<Vec<nostr::event::Tag>, _> =
        e.tags.iter().map(|t| nostr::event::Tag::parse(t.clone())).collect();
    match (id, pubkey, sig, tags) {
        (Ok(id), Ok(pubkey), Ok(sig), Ok(tags)) => nostr::event::Event::new(
            id, pubkey, e.created_at.into(), e.kind.into(), tags, e.content.clone(), sig,
        )
        .verify()
        .is_ok(),
        _ => false,
    }
}

} // verus!
