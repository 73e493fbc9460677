[package]
name = "rustpass"
version = "0.1.0"
edition = "2021"
publish = false

[dependencies]
aes-gcm = "0.10"
anyhow = "1"
arboard = { version = "3", default-features = false }
argon2 = "0.5"
base64 = "0.22"
hex = "0.4"
rand = "0.8"
rusqlite = { version = "0.31", features = ["bundled"] }
secrecy = "0.8"
zeroize = "1"
