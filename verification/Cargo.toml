[package]
name = "lanmon"
version = "0.1.0"
edition = "2021"
publish = false

[dependencies]
chrono = "0.4"
clap = "2"
fastping-rs = "*"
fern = { version = "0.7", features = ["colored"] }
log = "0.4"
serde = { version = "1", features = ["derive"] }
serde_derive = "1"
serde_json = "1"
toml = "*"
