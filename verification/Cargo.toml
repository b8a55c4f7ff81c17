[package]
name = "sftp_engine"
version = "0.1.0"
edition = "2021"
publish = false

[dependencies]
ssh2 = "0.9"
serde = { version = "1", features = ["derive"] }
serde_json = "1"
tokio = { version = "1", features = ["rt-multi-thread", "time", "macros"] }
