use vstd::prelude::*;
use crate::event::{Event, EventV};
use crate::filter::{Filter, FilterV};

verus! {

/// An inbound protocol message, decoded from one text frame.
#[derive(Debug, Clone, PartialEq, Eq)]
pub enum ClientMessage {
    /// A submitted event.
    Event(Event),
    /// A one-shot subscription query.
    Req { subscription_id: String, filter: Filter },
    /// Closes a subscription.
    Close(String),
    /// Accepted syntactically, not acted upon.
    Count { subscription_id: String, filter: Filter },
    /// Accepted syntactically, not acted upon.
    Auth(Event),
}

/// Mathematical model of a [`ClientMessage`].
pub ghost enum ClientMessageV {
    Event(EventV),
    Req { subscription_id: Seq<char>, filter: FilterV },
    Close(Seq<char>),
    Count { subscription_id: Seq<char>, filter: FilterV },
    Auth(EventV),
}

impl View for ClientMessage {
    type V = ClientMessageV;

    open spec fn view(&self) -> ClientMessageV {
        match self {
            ClientMessage::Event(e) => ClientMessageV::Event(e@),
            ClientMessage::Req { subscription_id, filter } => ClientMessageV::Req {
                subscription_id: subscription_id@,
                filter: filter@,
            },
            ClientMessage::Close(s) => ClientMessageV::Close(s@),
            ClientMessage::Count { subscription_id, filter } => ClientMessageV::Count {
                subscription_id: subscription_id@,
                filter: filter@,
            },
            ClientMessage::Auth(e) => ClientMessageV::Auth(e@),
        }
    }
}

/// An outbound protocol message, ready for the encoder.
#[derive(Debug, Clone, PartialEq, Eq)]
pub enum RelayMessage {
    /// Acknowledges a submitted event, accepted or not.
    Okay { event_id: String, accepted: bool, message: String },
    /// A human-readable remark, usually an error.
    Notice { message: String },
    /// One stored event answering a subscription.
    Event { subscription_id: String, event: Event },
    /// End of stored events for a subscription.
    Eose { subscription_id: String },
    /// The subscription is closed.
    Closed { subscription_id: String, message: String },
}

/// Mathematical model of a [`RelayMessage`].
pub ghost enum RelayMessageV {
    Okay { event_id: Seq<char>, accepted: bool, message: Seq<char> },
    Notice { message: Seq<char> },
    Event { subscription_id: Seq<char>, event: EventV },
    Eose { subscription_id: Seq<char> },
    Closed { subscription_id: Seq<char>, message: Seq<char> },
}

impl View for RelayMessage {
    type V = RelayMessageV;

    open spec fn view(&self) -> RelayMessageV {
        match self {
            RelayMessage::Okay { event_id, accepted, message } => RelayMessageV::Okay {
                event_id: event_id@,
                accepted: *accepted,
                message: message@,
            },
            RelayMessage::Notice { message } => RelayMessageV::Notice { message: message@ },
            RelayMessage::Event { subscription_id, event } => RelayMessageV::Event {
                subscription_id: subscription_id@,
                event: event@,
            },
            RelayMessage::Eose { subscription_id } => RelayMessageV::Eose {
                subscription_id: subscription_id@,
            },
            RelayMessage::Closed { subscription_id, message } => RelayMessageV::Closed {
                subscription_id: subscription_id@,
                message: message@,
            },
        }
    }
}

impl DeepView for RelayMessage {
    type V = RelayMessageV;

    open spec fn deep_view(&self) -> RelayMessageV {
        self.view()
    }
}

/// Why the store refused to keep an event. Produced by the store gateway; the
/// pipeline only maps it to user-facing text.
#[derive(Debug, Clone, Copy, PartialEq, Eq, Structural)]
pub enum RejectionReason {
    Ephemeral,
    Duplicate,
    Deleted,
    Expired,
    Replaced,
    InvalidDelete,
    Other,
}

/// Outcome of a store save attempt.
#[derive(Debug, Clone, Copy, PartialEq, Eq, Structural)]
pub enum SaveOutcome {
    Success,
    Rejected(RejectionReason),
}

/// Why an inbound frame could not be decoded.
#[derive(Debug, Clone, Copy, PartialEq, Eq, Structural)]
pub enum DecodeError {
    /// Not a well-formed protocol message.
    Malformed,
    /// A well-formed array whose discriminator this relay does not know.
    UnknownMessageType,
}

/// The fixed user-facing text for each rejection reason.
pub open spec fn spec_rejection_text(r: RejectionReason) -> Seq<char> {
    match r {
        RejectionReason::Ephemeral => "ephemeral event"@,
        RejectionReason::Duplicate => "duplicate event"@,
        RejectionReason::Deleted => "deleted event"@,
        RejectionReason::Expired => "expired event"@,
        RejectionReason::Replaced => "replaced event"@,
        RejectionReason::InvalidDelete => "invalid delete"@,
        RejectionReason::Other => "other"@,
    }
}

/// Maps a store rejection to its fixed human-readable text; exhaustive over
/// all reasons.
pub fn rejection_notice_text(r: RejectionReason) -> (s: &'static str)
    ensures
        s@ == spec_rejection_text(r),
{
    match r {
        RejectionReason::Ephemeral => "ephemeral event",
        RejectionReason::Duplicate => "duplicate event",
        RejectionReason::Deleted => "deleted event",
        RejectionReason::Expired => "expired event",
        RejectionReason::Replaced => "replaced event",
        RejectionReason::InvalidDelete => "invalid delete",
        RejectionReason::Other => "other",
    }
}

} // verus!
