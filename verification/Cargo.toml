[package]
name = "warg-server"
version = "0.1.0"
edition = "2021"
publish = false

[dependencies]
anyhow = "1"
serde = { version = "1", features = ["derive", "rc"] }
tokio = { version = "1", features = ["sync", "rt", "rt-multi-thread", "macros"] }
warg-crypto = "0.1"
warg-protocol = "0.1"
warg-transparency = "0.1"
