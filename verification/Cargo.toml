[package]
name = "ree_metadata"
version = "0.1.0"
edition = "2021"
publish = false

[dependencies]
borsh = "0.9"
num-derive = "0.3"
num-traits = "0.2"
percentage = "0.1"
solana-program = "~1.14"
spl-token = "3"
thiserror = "1"
