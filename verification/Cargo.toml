[package]
name = "rune_mint"
version = "0.1.0"
edition = "2021"
publish = false

[dependencies]
bitcoin = "0.30.1"
hex = "0.4.3"
anyhow = "1"
serde = { version = "1", features = ["derive"] }
clap = { version = "4", features = ["derive"] }
