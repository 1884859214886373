[package]
name = "security_core"
version = "0.1.0"
edition = "2021"
publish = false

[dependencies]
aes-gcm = "0.10"
base64 = "0.22"
chrono = { version = "0.4", features = ["serde"] }
rand = "0.9"
rcgen = "0.12"
regex = "1"
reqwest = { version = "0.12", default-features = false, features = ["json", "rustls-tls"] }
rustls = "0.22"
rustls-pemfile = "2"
serde = { version = "1", features = ["derive"] }
serde_json = "1"
zeroize = "1"
