use vstd::prelude::*;
use crate::event::{Event, EventV, event_sig_valid, verify_event};
use crate::numbers::{sp_dec_u64, parse_u64_chars};
use crate::strings::{string_to_chars, str_eq};
use vstd::string::StringSliceAdditionalSpecFns;


verus! {

/// Why the validator turned an event away.
#[derive(Debug, Clone, Copy, PartialEq, Eq, Structural)]
pub enum ValidationError {
    /// The content is longer than the configured maximum.
    ContentTooLong,
    /// The event carries an expiration marker that already passed.
    Expired,
    /// `created_at` lies further in the future than the configured tolerance.
    CreatedAtTooFar,
    /// The id digest or the signature does not check out.
    InvalidSignature,
}

/// The expiration marker of an event: the first tag whose key is
/// `expiration`, read as a decimal timestamp; `None` if there is no such tag
/// or the first one does not parse.
pub open spec fn spec_expiration(tags: Seq<Seq<Seq<char>>>) -> Option<u64>
    decreases tags.len(),
{
    if tags.len() == 0 {
        None
    } else if tags[0].len() >= 1 && tags[0][0] == "expiration"@ {
        if tags[0].len() >= 2 {
            sp_dec_u64(tags[0][1])
        } else {
            None
        }
    } else {
        spec_expiration(tags.drop_first())
    }
}

/// Whether the event's expiration marker lies strictly before `now`.
pub open spec fn spec_is_expired(e: EventV, now: u64) -> bool {
    match spec_expiration(e.tags) {
        Some(t) => t < now,
        None => false,
    }
}

/// The whole admission pipeline, in its fixed order: content length (in
/// bytes of the UTF-8 writing), then expiration, then future-timestamp
/// tolerance, then signature. The first failing stage names the error.
pub open spec fn spec_validate(
    e: EventV,
    max_content_length: u64,
    now: u64,
    reject_future_seconds: u64,
) -> Result<(), ValidationError> {
    if vstd::utf8::encode_utf8(e.content).len() > max_content_length {
        Err(ValidationError::ContentTooLong)
    } else if spec_is_expired(e, now) {
        Err(ValidationError::Expired)
    } else if e.created_at > now + reject_future_seconds {
        Err(ValidationError::CreatedAtTooFar)
    } else if !event_sig_valid(e) {
        Err(ValidationError::InvalidSignature)
    } else {
        Ok(())
    }
}

/// Reads the expiration marker of an event's tags.
pub fn expiration_of_tags(tags: &Vec<Vec<String>>) -> (r: Option<u64>)
    ensures
        r == spec_expiration(tags.deep_view()),
{
    let ghost all: Seq<Seq<Seq<char>>> = tags.deep_view();
    proof {
        assert(all.skip(0) =~= all);
    }
    let mut i: usize = 0;
    while i < tags.len()
        invariant
            0 <= i <= tags@.len(),
            all == tags.deep_view(),
            all.len() == tags@.len(),
            forall|j: int| 0 <= j < all.len() ==> all[j] == #[trigger] tags@[j].deep_view(),
            spec_expiration(all) == spec_expiration(all.skip(i as int)),
        decreases tags@.len() - i,
    {
        let tag = &tags[i];
        proof {
            assert(all.skip(i as int)[0] == all[i as int]);
            assert(forall|j: int| 0 <= j < all[i as int].len()
                ==> all[i as int][j] == #[trigger] tag@[j]@);
        }
        if tag.len() >= 1 && str_eq(tag[0].as_str(), "expiration") {
            if tag.len() >= 2 {
                let chars = string_to_chars(tag[1].as_str());
                return parse_u64_chars(&chars);
            } else {
                return None;
            }
        }
        proof {
            assert(all.skip(i as int).drop_first() =~= all.skip(i + 1));
        }
        i = i + 1;
    }
    proof {
        assert(all.skip(tags@.len() as int) =~= Seq::<Seq<Seq<char>>>::empty());
    }
    None
}

/// Runs the admission pipeline on a submitted event: content length,
/// expiration, future-timestamp tolerance, signature, in that order, stopping
/// at the first failure.
pub fn validate_event(
    e: &Event,
    max_content_length: u64,
    now: u64,
    reject_future_seconds: u64,
) -> (r: Result<(), ValidationError>)
    ensures
        r == spec_validate(e@, max_content_length, now, reject_future_seconds),
{
    let content_bytes = e.content.as_str().as_bytes();
    proof {
        assert(content_bytes@ == vstd::utf8::encode_utf8(e.content@));
    }
    if content_bytes.len() as u64 > max_content_length {
        return Err(ValidationError::ContentTooLong);
    }
    let expired = match expiration_of_tags(&e.tags) {
        Some(t) => t < now,
        None => false,
    };
    if expired {
        return Err(ValidationError::Expired);
    }
    let too_far = if reject_future_seconds <= u64::MAX - now {
        e.created_at > now + reject_future_seconds
    } else {
        false
    };
    if too_far {
        return Err(ValidationError::CreatedAtTooFar);
    }
    if !verify_event(e) {
        return Err(ValidationError::InvalidSignature);
    }
    Ok(())
}

} // verus!
