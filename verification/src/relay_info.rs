use vstd::prelude::*;
use crate::config::{Config, Limitations};

verus! {

/// The machine-readable description of the relay: identity, limits, and
/// supported protocol-extension numbers. Served over plain content
/// negotiation, outside the message channel.
#[derive(Debug, Clone)]
pub struct RelayInformationDocument {
    pub name: String,
    pub description: String,
    pub banner: String,
    pub icon: String,
    pub pubkey: String,
    pub contact: String,
    pub supported_nips: Vec<u16>,
    pub software: String,
    pub version: String,
    pub limitations: Limitations,
}

/// The protocol-extension numbers a configuration declares, in order,
/// without their reference URLs.
pub open spec fn spec_nip_numbers(nips: Seq<(u16, Seq<char>)>) -> Seq<u16> {
    Seq::new(nips.len(), |i: int| nips[i].0)
}

/// Builds the relay information document from the configuration: every
/// identity field copied as it stands, the extension numbers stripped of
/// their URLs, the limits carried whole.
pub fn relay_information(config: &Config) -> (r: RelayInformationDocument)
    ensures
        r.name@ == config.name@,
        r.description@ == config.description@,
        r.banner@ == config.banner@,
        r.icon@ == config.icon@,
        r.pubkey@ == config.pubkey@,
        r.contact@ == config.contact@,
        r.supported_nips@.len() == config.supported_nips@.len(),
        forall|i: int| 0 <= i < config.supported_nips@.len() ==> r.supported_nips@[i]
            == (#[trigger] config.supported_nips@[i]).0,
        r.software@ == config.software@,
        r.version@ == config.version@,
        r.limitations == config.limits,
{
    let mut numbers: Vec<u16> = Vec::new();
    let mut i: usize = 0;
    while i < config.supported_nips.len()
        invariant
            0 <= i <= config.supported_nips@.len(),
            numbers@.len() == i,
            forall|j: int| 0 <= j < i ==> numbers@[j] == (#[trigger] config.supported_nips@[j]).0,
        decreases config.supported_nips@.len() - i,
    {
        numbers.push(config.supported_nips[i].0);
        i = i + 1;
    }
    let limits = &config.limits;
    RelayInformationDocument {
        name: config.name.clone(),
        description: config.description.clone(),
        banner: config.banner.clone(),
        icon: config.icon.clone(),
        pubkey: config.pubkey.clone(),
        contact: config.contact.clone(),
        supported_nips: numbers,
        software: config.software.clone(),
        version: config.version.clone(),
        limitations: Limitations {
            max_message_length: limits.max_message_length,
            max_subscriptions: limits.max_subscriptions,
            max_filters: limits.max_filters,
            max_limit: limits.max_limit,
            max_subid_length: limits.max_subid_length,
            max_event_tags: limits.max_event_tags,
            max_content_length: limits.max_content_length,
            min_pow_difficulty: limits.min_pow_difficulty,
            auth_required: limits.auth_required,
            payment_required: limits.payment_required,
            restricted_writes: limits.restricted_writes,
            created_at_lower_limit: limits.created_at_lower_limit,
            created_at_upper_limit: limits.created_at_upper_limit,
            write_buffer_size: limits.write_buffer_size,
        },
    }
}

} // verus!
