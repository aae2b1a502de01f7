[package]
name = "tpu_client"
version = "0.1.0"
edition = "2021"
publish = false

[dependencies]
async-trait = "0.1"
bytes = "1"
derive_more = { version = "2", features = ["display"] }
futures = "0.3"
humantime-serde = "1"
serde = { version = "1", features = ["derive"] }
solana-clock = "3"
solana-keypair = "3"
solana-pubkey = "3"
thiserror = "2"
tokio = { version = "1", features = ["macros", "rt", "rt-multi-thread", "sync", "time"] }
tokio-stream = "0.1"
tokio-util = "0.7"
tracing = "0.1"
yellowstone-grpc-client = { version = "*", default-features = false }
yellowstone-grpc-proto = { version = "*", default-features = false }

[dev-dependencies]
rand = "0.9"
