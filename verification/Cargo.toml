[package]
name = "na_libp2p"
version = "0.1.0"
edition = "2021"
publish = false

[dependencies]
futures = "0.3"
libc = "0.2"
libp2p = { version = "0.55", features = ["tcp", "noise", "yamux", "quic", "relay", "dcutr", "identify", "ping", "tokio", "macros", "ed25519"] }
libp2p-stream = "0.3.0-alpha"
parking_lot = "0.12"
tokio = { version = "1", features = ["rt-multi-thread", "macros", "sync", "time", "signal"] }
tracing = "0.1"
tracing-subscriber = { version = "0.3", features = ["env-filter"] }
