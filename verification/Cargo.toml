[package]
name = "solang_casperlabs"
version = "0.1.0"
edition = "2021"
publish = false

[dependencies]
num-bigint = "0.2"
num-traits = "0.2"
clap = "2.33"
serde = { version = "1.0", features = ["derive"] }
serde_json = "1.0"
