[package]
name = "voiddrop"
version = "0.1.0"
edition = "2021"
publish = false

[dependencies]
rand = "0.8"
uuid = { version = "1", features = ["v4"] }
chrono = "0.4"
qrcode = "*"
tokio = { version = "1", features = ["full"] }
serde = { version = "1", features = ["derive"] }
serde_json = "1"
anyhow = "1"
clap = { version = "4", features = ["derive"] }
colored = "*"
arboard = { version = "3", default-features = false }
reqwest = { version = "0.12", default-features = false, features = ["rustls-tls"] }
aes-gcm = "0.10"
sha2 = "0.10"
