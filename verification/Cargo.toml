[package]
name = "daily_lottery"
version = "0.1.0"
edition = "2021"
publish = false

[dependencies]
borsh = { version = "1", features = ["derive"] }
serde = { version = "1", features = ["derive"] }
serde_json = "1"
sha2 = "0.10"
solana-program = "2"
solana-sha256-hasher = "2"
solana-system-interface = "1"
thiserror = "1"
