[package]
name = "market_mirror"
version = "0.1.0"
edition = "2021"
publish = false

[dependencies]
ethers-contract = { version = "2", features = ["abigen"] }
ethers-core = "2"
ethers-providers = "2"
eyre = "0.6"
futures = "0.3"
hex = "0.4"
mongodb = "2"
serde = { version = "1", features = ["derive"] }
tokio = { version = "1", features = ["macros", "rt-multi-thread"] }
