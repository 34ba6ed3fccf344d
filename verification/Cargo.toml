[package]
name = "bookmark_capture"
version = "0.1.0"
edition = "2021"
publish = false

[dependencies]
clap = { version = "*", features = ["cargo"] }
notify = "*"
tokio = { version = "*", features = ["macros", "rt-multi-thread", "sync", "time"] }

[dev-dependencies]
serde_json = "*"
