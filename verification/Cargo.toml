[package]
name = "plin"
version = "0.1.0"
edition = "2021"
publish = false

[dependencies]
bincode = "1.3"
chrono = "0.4"
dashmap = "4"
dotenv = "0.15"
futures = "0.3"
humantime = "2.1"
reqwest = { version = "0.11", features = ["json"] }
serde = { version = "1", features = ["derive"] }
serde_json = "1"
serenity = "0.10"
sled = "0.34"
tokio = { version = "1", features = ["macros", "rt-multi-thread", "time", "sync"] }
