[package]
name = "iap2_rs"
version = "0.1.0"
edition = "2021"
publish = false

[dependencies]
bytes = "1"
tokio = { version = "1", features = ["full"] }
bluer = { version = "0.17", features = ["rfcomm"] }
async-trait = "0.1"
thiserror = "2"
tracing = "0.1"
hex = "0.4"
