[package]
name = "transcode_supervisor"
version = "0.1.0"
edition = "2021"
publish = false

[dependencies]
regex = "1"
serde = { version = "1", features = ["derive"] }
serde_json = "1"
tokio = { version = "1", features = ["process", "io-util", "time", "rt-multi-thread", "macros", "sync", "fs"] }
