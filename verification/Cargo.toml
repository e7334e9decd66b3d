[package]
name = "csvp_protocol"
version = "0.1.0"
edition = "2021"
publish = false

[dependencies]
borsh = "=1.8.1"
solana-program = "=2.3.0"
serde_json = "=1.0.154"
tokio = { version = "=1.54.1", features = ["rt-multi-thread", "macros"] }
reqwest = { version = "=0.12.28", default-features = false, features = ["json"] }
solana-rpc-client = { version = "2", default-features = false }
solana-commitment-config = "2"
