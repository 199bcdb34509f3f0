[package]
name = "biao"
version = "0.1.0"
edition = "2021"
publish = false

[dependencies]
clap = { version = "*", features = ["derive"] }
clap_complete = "*"
colored = "*"
serde = { version = "*", features = ["derive"] }
serde_json = "*"
toml = "*"
