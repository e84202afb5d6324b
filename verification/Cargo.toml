[package]
name = "book_lending"
version = "0.1.0"
edition = "2021"
publish = false

[dependencies]
indexmap = { version = "1.9", features = ["serde-1"] }
data-encoding = "2"
rand = "0.8"
itertools = "0.10"
serde = { version = "1", features = ["derive"] }
serde_json = "1"
bincode = "1"
chrono = { version = "0.4", features = ["serde"] }
tokio = { version = "1", features = ["rt-multi-thread", "fs", "sync", "macros"] }
serenity = "0.10"
signal-hook = "0.1"
