[package]
name = "block_watch"
version = "0.1.0"
edition = "2021"
publish = false

[dependencies]
chrono = "*"
compound_duration = "*"
num-format = "*"
serde = { version = "*", features = ["derive"] }
serde_json = "*"
reqwest = { version = "*", default-features = false }
tokio = { version = "*", features = ["macros", "rt-multi-thread", "time"] }
nostr-bot = "*"
