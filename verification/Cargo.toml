[package]
name = "swap"
version = "0.1.0"
edition = "2021"
publish = false

[dependencies]
anyhow = "1"
bitcoin = "*"
libp2p = { version = "*", default-features = false, features = ["cbor", "macros", "noise", "request-response", "tcp", "tokio", "yamux"] }
monero = "*"
serde = { version = "1", features = ["derive"] }
time = "0.2"
tokio = { version = "1", features = ["rt-multi-thread", "time"] }
tracing = "0.1"
