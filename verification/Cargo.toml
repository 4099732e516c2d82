[package]
name = "whisper_cli"
version = "0.1.0"
edition = "2021"
publish = false

[dependencies]
anyhow = "*"
audrey = "*"
clap = { version = "*", features = ["derive"] }
tokio = { version = "*", features = ["macros", "rt-multi-thread"] }
uuid = { version = "*", features = ["v4"] }
whisper-rs = "*"
