[package]
name = "pomodoro"
version = "0.1.0"
edition = "2021"
publish = false

[dependencies]
sled = "*"
uuid = { version = "*", features = ["v4"] }
chrono = "*"
tokio = { version = "*", features = ["full"] }
rustyline = "*"
notify-rust = "*"
reqwest = { version = "*", default-features = false }
serde_json = "*"
