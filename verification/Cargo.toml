[package]
name = "mutsuki_link"
version = "0.1.0"
edition = "2021"
publish = false

[dependencies]
bytes = "1"
interprocess = { version = "2", features = ["tokio"] }
keyring = "3"
mdns-sd = "*"
quinn = { version = "0.11", default-features = false, features = ["runtime-tokio", "rustls-ring"] }
serde = { version = "1", features = ["derive"] }
serde_json = "1"
sha2 = "0.10"
socket2 = { version = "0.5", features = ["all"] }
tokio = { version = "1", features = ["io-util", "macros", "net", "rt", "rt-multi-thread", "sync", "time"] }
