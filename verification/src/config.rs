use vstd::prelude::*;

verus! {

/// Server-declared admission thresholds. Loaded once at startup and read-only
/// for the lifetime of the process; advertised in the relay information
/// document and enforced by the message pipeline.
#[derive(Debug, Clone)]
pub struct Limitations {
    pub max_message_length: u64,
    pub max_subscriptions: u64,
    pub max_filters: u64,
    pub max_limit: u64,
    pub max_subid_length: u64,
    pub max_event_tags: u64,
    pub max_content_length: u64,
    pub min_pow_difficulty: u64,
    pub auth_required: bool,
    pub payment_required: bool,
    pub restricted_writes: bool,
    pub created_at_lower_limit: u64,
    pub created_at_upper_limit: u64,
    pub write_buffer_size: u64,
}

impl Default for Limitations {
    /// Sensible defaults following the relay information document's
    /// recommended server limitations.
    fn default() -> (r: Self)
        ensures
            r.max_message_length == 16384,
            r.max_subscriptions == 20,
            r.max_filters == 100,
            r.max_limit == 5000,
            r.max_subid_length == 100,
            r.max_event_tags == 100,
            r.max_content_length == 8196,
            r.min_pow_difficulty == 30,
            !r.auth_required,
            !r.payment_required,
            !r.restricted_writes,
            r.created_at_lower_limit == 31536000,
            r.created_at_upper_limit == 3,
            r.write_buffer_size == 4096,
    {
        Limitations {
            max_message_length: 16384,
            max_subscriptions: 20,
            max_filters: 100,
            max_limit: 5000,
            max_subid_length: 100,
            max_event_tags: 100,
            max_content_length: 8196,
            min_pow_difficulty: 30,
            auth_required: false,
            payment_required: false,
            restricted_writes: false,
            created_at_lower_limit: 31536000,
            created_at_upper_limit: 3,
            write_buffer_size: 4096,
        }
    }
}

/// Server identity and runtime settings. Loading from disk happens outside
/// this crate; the pipeline only ever reads these fields.
#[derive(Debug, Clone)]
pub struct Config {
    pub name: String,
    pub description: String,
    pub banner: String,
    pub icon: String,
    pub pubkey: String,
    pub contact: String,
    pub supported_nips: Vec<(u16, String)>,
    pub software: String,
    pub version: String,
    pub relay_port: u16,
    pub relay_bind_address: String,
    pub reject_future_seconds: u64,
    pub limits: Limitations,
}

} // verus!
