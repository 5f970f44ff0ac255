[package]
name = "hypixel_watch"
version = "0.1.0"
edition = "2021"
publish = false

[dependencies]
uuid = "*"
anyhow = "*"
dirs = "*"
hotwatch = "*"
log = "*"
reqwest = { version = "*", default-features = false, features = ["json"] }
serde = { version = "*", features = ["derive"] }
serde_json = "*"
simple_logger = "*"
tokio = { version = "*", features = ["rt-multi-thread", "macros", "fs", "io-util", "signal"] }
toml = "*"
