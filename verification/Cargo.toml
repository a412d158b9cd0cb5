[package]
name = "token_custody"
version = "0.1.0"
edition = "2021"
publish = false

[dependencies]
solana-program = "2"
anchor-lang = { version = "0.31", features = ["init-if-needed"] }
anchor-spl = "0.31"
borsh = { version = "1", features = ["derive"] }
spl-token = "7"
spl-associated-token-account = "6"
solana-system-interface = "1"
thiserror = "2"
