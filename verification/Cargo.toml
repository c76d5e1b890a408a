[package]
name = "pow"
version = "0.1.0"
edition = "2021"
publish = false

[dependencies]
sha2 = "0.10"
num-bigint = "0.4"
bincode = "2"
chrono = "0.4"
rand = "0.9"
serde = { version = "1", features = ["derive"] }
tokio = { version = "1", features = ["rt-multi-thread", "macros", "net", "sync", "time"] }
tokio-util = { version = "0.7", features = ["codec"] }
futures = "0.3"
tarpc = { version = "0.36", features = ["serde-transport", "serde-transport-bincode", "tokio1"] }
tracing-subscriber = { version = "0.3", features = ["env-filter"] }
libp2p = { version = "0.56", default-features = false, features = ["tokio", "tcp", "noise", "yamux", "ping", "macros"] }
