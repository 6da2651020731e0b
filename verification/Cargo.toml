[package]
name = "rs_czsc"
version = "0.1.0"
edition = "2021"
publish = false

[dependencies]
chrono = "0.4"
chrono-tz = "*"
serde = { version = "1", features = ["derive"] }
serde_json = "1"
anyhow = "1"
dirs = "*"
reqwest = { version = "*", default-features = false, features = ["json", "multipart"] }
tokio = { version = "1", features = ["rt-multi-thread", "macros"] }
