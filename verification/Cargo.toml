[package]
name = "oneshell"
version = "0.1.0"
edition = "2021"
publish = false

[dependencies]
aes-gcm = "0.10"
anyhow = "1"
base64 = "0.22"
rand = "0.8"
rusqlite = { version = "*", features = ["bundled"] }
russh = "*"
serde = { version = "1", features = ["derive"] }
sha2 = "0.10"
tokio = { version = "1", features = ["full"] }
tokio-socks = "*"
uuid = { version = "1", features = ["v4"] }
zeroize = "1"
