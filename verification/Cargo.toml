[package]
name = "hn_reader"
version = "0.1.0"
edition = "2021"
publish = false

[dependencies]
ammonia = "3"
serde_json = "1"
reqwest = { version = "0.11", features = ["blocking", "json"] }
tokio = { version = "1", features = ["rt-multi-thread"] }
futures = "0.3"
tui = "0.9"
termion = "1.5"
