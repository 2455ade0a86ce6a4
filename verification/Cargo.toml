[package]
name = "bolt"
version = "0.1.0"
edition = "2021"
publish = false

[dependencies]
nostr = { version = "=0.45.5", features = ["os-rng"] }
axum = { version = "=0.8.9", features = ["ws"] }
tokio = { version = "=1.53.2", features = ["rt-multi-thread", "macros", "net", "signal"] }
futures = "=0.3.34"
serde = { version = "=1.0.229", features = ["derive"] }
serde_json = "=1.0.151"
serde_yml = "=0.0.13"
tower-http = { version = "=0.7.1", features = ["cors"] }
nostr-database = "=0.45.2"
nostr-ndb = "=0.45.2"
