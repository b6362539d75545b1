[package]
name = "cache_inmemory"
version = "0.1.0"
edition = "2021"
publish = false

[dependencies]
deadpool-redis = "=0.23.1"
futures = "=0.3.34"
log = "=0.4.34"
prometheus = "=0.14.0"
serde = { version = "=1.0.229", features = ["derive"] }
serde_cbor = "=0.11.2"
