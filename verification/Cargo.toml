[package]
name = "mini_ledger"
version = "0.1.0"
edition = "2021"
publish = false

[dependencies]
bigdecimal = "0.4"
prost = "0.13"
prost-types = "0.13"
tokio = { version = "1", features = ["macros", "rt-multi-thread", "sync"] }
tonic = "0.12"
tonic-reflection = "0.12"
uuid = { version = "1", features = ["v4"] }
