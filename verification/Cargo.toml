[package]
name = "cryptor"
version = "0.1.0"
edition = "2021"
publish = false

[dependencies]
aes-gcm = "0.10"
anyhow = "1"
chacha20poly1305 = "0.10"
clap = { version = "4", features = ["derive"] }
pbkdf2 = "0.12"
rand = "0.8"
sha2 = "0.10"

[dev-dependencies]
base64 = "0.22"
