[package]
name = "program_metadata"
version = "0.1.0"
edition = "2021"
publish = false

[dependencies]
anchor-lang = "0.31"
anyhow = "1"
clap = "2"
flate2 = "1"
solana-sdk = "2"
