[package]
name = "spl_token_mint"
version = "0.1.0"
edition = "2021"
publish = false

[dependencies]
clap = { version = "4", features = ["derive"] }
dirs = "5"
solana-program = "=1.18.26"
solana-sdk = "=1.18.26"
spl-associated-token-account = { version = "=2.0.0", features = ["no-entrypoint"] }
spl-token = { version = "=4.0.0", features = ["no-entrypoint"] }

[dev-dependencies]
borsh = "=1.8.1"
