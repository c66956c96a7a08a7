[package]
name = "ods_grid"
version = "0.1.0"
edition = "2021"
publish = false

[dependencies]
anyhow = "1"
base64 = "*"
celestia-rpc = "*"
celestia-types = "*"
crossterm = "*"
serde = { version = "1", features = ["derive"] }
sha3 = "*"
tokio = { version = "1", features = ["macros", "rt-multi-thread", "signal"] }
toml = "*"
