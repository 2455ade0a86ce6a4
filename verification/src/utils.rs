use vstd::prelude::*;

verus! {

/// Relies on `std::time::SystemTime`: seconds since the UNIX epoch, read from
/// the system clock, or 0 if the clock reads before the epoch. The result
/// depends on the clock, so nothing is promised of it.
#[verifier::external_body]
pub fn unix_time() -> u64 {
    std::time::SystemTime::now()
        .duration_since(std::time::SystemTime::UNIX_EPOCH)
        .map(|x| x.as_secs())
        .unwrap_or(0)
}

/// Whether a content length exceeds the configured maximum.
pub fn event_exceeds_max_length(content_length: usize, max_length: usize) -> (r: bool)
    ensures
        r == (content_length > max_length),
{
    content_length > max_length
}

} // verus!
