[package]
name = "swapper"
version = "0.1.0"
edition = "2021"
publish = false

[dependencies]
alloy = { version = "0.2", features = ["contract", "provider-http", "signer-local", "network", "transport-http"] }
eyre = "0.6"
dotenv = "0.15"
tokio = { version = "1", features = ["macros", "rt-multi-thread"] }
