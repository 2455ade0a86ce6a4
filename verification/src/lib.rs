//! Server-side core of a decentralized event-relay wire protocol.
//!
//! Clients submit signed, timestamped content records ("events") and register
//! interest queries ("filters") over a persistent message channel. This crate
//! holds the per-connection message pipeline: decoding inbound protocol
//! messages, validating and admitting submitted events, resolving deletion
//! requests against tag-based authorization rules, shaping one-shot
//! subscription answers, and encoding outbound protocol responses. Transport,
//! the persistent store, and HTTP plumbing live outside this crate and talk to
//! it through plain values.

pub mod config;
pub mod event;
pub mod filter;
pub mod messages;
pub mod numbers;
pub mod strings;
pub mod utils;
pub mod validate;
pub mod handle;
pub mod encode;
pub mod decode;
pub mod roundtrip;
pub mod relay_info;
pub mod index_page;
