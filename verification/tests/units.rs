use bolt::config::{Config, Limitations};
use bolt::index_page::{format_nip_label, index_template, SupportedNip};
use bolt::messages::{rejection_notice_text, RejectionReason};
use bolt::numbers::{check_hex_id, parse_u16_chars, parse_u64_chars};
use bolt::relay_info::relay_information;
use bolt::utils::{event_exceeds_max_length, unix_time};
use bolt::validate::expiration_of_tags;

#[test]
fn default_limitations_match_the_documented_values() {
    let l = Limitations::default();
    assert_eq!(l.max_message_length, 16384);
    assert_eq!(l.max_subscriptions, 20);
    assert_eq!(l.max_filters, 100);
    assert_eq!(l.max_limit, 5000);
    assert_eq!(l.max_subid_length, 100);
    assert_eq!(l.max_event_tags, 100);
    assert_eq!(l.max_content_length, 8196);
    assert_eq!(l.min_pow_difficulty, 30);
    assert!(!l.auth_required);
    assert!(!l.payment_required);
    assert!(!l.restricted_writes);
    assert_eq!(l.created_at_lower_limit, 31536000);
    assert_eq!(l.created_at_upper_limit, 3);
}

#[test]
fn content_length_check_is_strict() {
    assert!(!event_exceeds_max_length(10, 10));
    assert!(event_exceeds_max_length(11, 10));
    assert!(!event_exceeds_max_length(0, 10));
}

#[test]
fn unix_time_is_after_the_epoch() {
    let t = unix_time();
    assert!(t > 1_600_000_000);
}

#[test]
fn rejection_reasons_map_to_fixed_text() {
    assert_eq!(rejection_notice_text(RejectionReason::Ephemeral), "ephemeral event");
    assert_eq!(rejection_notice_text(RejectionReason::Duplicate), "duplicate event");
    assert_eq!(rejection_notice_text(RejectionReason::Deleted), "deleted event");
    assert_eq!(rejection_notice_text(RejectionReason::Expired), "expired event");
    assert_eq!(rejection_notice_text(RejectionReason::Replaced), "replaced event");
    assert_eq!(rejection_notice_text(RejectionReason::InvalidDelete), "invalid delete");
    assert_eq!(rejection_notice_text(RejectionReason::Other), "other");
}

#[test]
fn parses_decimal_strings() {
    assert_eq!(parse_u64_chars(&"0".chars().collect()), Some(0));
    assert_eq!(parse_u64_chars(&"1700000000".chars().collect()), Some(1700000000));
    assert_eq!(
        parse_u64_chars(&"18446744073709551615".chars().collect()),
        Some(u64::MAX)
    );
    assert_eq!(parse_u64_chars(&"18446744073709551616".chars().collect()), None);
    assert_eq!(parse_u64_chars(&"".chars().collect()), None);
    assert_eq!(parse_u64_chars(&"12a".chars().collect()), None);
    assert_eq!(parse_u16_chars(&"65535".chars().collect()), Some(65535));
    assert_eq!(parse_u16_chars(&"65536".chars().collect()), None);
}

#[test]
fn recognizes_event_id_hex() {
    let good: Vec<char> = "0123456789abcdefABCDEF".repeat(4)[..64].chars().collect();
    assert!(check_hex_id(&good));
    let short: Vec<char> = "ab".chars().collect();
    assert!(!check_hex_id(&short));
    let bad: Vec<char> = "g".repeat(64).chars().collect();
    assert!(!check_hex_id(&bad));
}

#[test]
fn finds_first_expiration_marker() {
    let tags = vec![
        vec!["p".to_string(), "x".to_string()],
        vec!["expiration".to_string(), "123".to_string()],
        vec!["expiration".to_string(), "456".to_string()],
    ];
    assert_eq!(expiration_of_tags(&tags), Some(123));
    let none: Vec<Vec<String>> = vec![vec!["p".to_string()]];
    assert_eq!(expiration_of_tags(&none), None);
    let unparsable = vec![vec!["expiration".to_string(), "soon".to_string()]];
    assert_eq!(expiration_of_tags(&unparsable), None);
}

fn sample_config() -> Config {
    Config {
        name: "relay".to_string(),
        description: "a relay".to_string(),
        banner: "banner.png".to_string(),
        icon: "icon.png".to_string(),
        pubkey: "f".repeat(64),
        contact: "mail@example.com".to_string(),
        supported_nips: vec![
            (1, "https://example.com/01".to_string()),
            (9, "https://example.com/09".to_string()),
            (11, "https://example.com/11".to_string()),
        ],
        software: "bolt".to_string(),
        version: "0.1.0".to_string(),
        relay_port: 7000,
        relay_bind_address: "127.0.0.1".to_string(),
        reject_future_seconds: 30,
        limits: Limitations::default(),
    }
}

#[test]
fn relay_information_carries_identity_and_numbers() {
    let c = sample_config();
    let doc = relay_information(&c);
    assert_eq!(doc.name, "relay");
    assert_eq!(doc.description, "a relay");
    assert_eq!(doc.banner, "banner.png");
    assert_eq!(doc.icon, "icon.png");
    assert_eq!(doc.pubkey, c.pubkey);
    assert_eq!(doc.contact, "mail@example.com");
    assert_eq!(doc.supported_nips, vec![1, 9, 11]);
    assert_eq!(doc.software, "bolt");
    assert_eq!(doc.version, "0.1.0");
    assert_eq!(doc.limitations.max_content_length, 8196);
}

#[test]
fn nip_labels_are_zero_padded() {
    assert_eq!(format_nip_label(1), "01");
    assert_eq!(format_nip_label(9), "09");
    assert_eq!(format_nip_label(10), "10");
    assert_eq!(format_nip_label(42), "42");
}

#[test]
fn index_template_labels_every_extension() {
    let c = sample_config();
    let t = index_template(&c);
    assert_eq!(t.relay_name, "relay");
    assert_eq!(t.relay_description, "a relay");
    assert_eq!(t.relay_url, "https://relay.bolt/ws");
    let labels: Vec<String> = t.supported_nips.iter().map(|n| n.nip.clone()).collect();
    assert_eq!(labels, vec!["01", "09", "11"]);
    assert_eq!(t.supported_nips[0].url, "https://example.com/01");
}

#[test]
fn supported_nip_displays_with_prefix() {
    let n = SupportedNip { nip: "09".to_string(), url: "u".to_string() };
    assert_eq!(n.display_string(), "NIP-09");
}
