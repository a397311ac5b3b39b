[package]
name = "oracle_aggregator"
version = "0.1.0"
edition = "2021"
publish = false

[dependencies]
soroban-sdk = { version = "=25.3.2", features = ["hazmat-address"] }
sep-40-oracle = "=1.4.0"

[dev-dependencies]
soroban-sdk = { version = "=25.3.2", features = ["hazmat-address", "testutils"] }
sep-40-oracle = { version = "=1.4.0", features = ["testutils"] }
