[package]
name = "statelock"
version = "0.1.0"
edition = "2021"
publish = false

[dependencies]
aes-gcm = "0.10"
argon2 = "0.5"
hkdf = "0.12"
sha2 = "0.10"
zeroize = "1"
serde = { version = "1", features = ["derive"] }
serde_json = "1"
thiserror = "2"
crossterm = "0.28"
ratatui = "0.29"
arboard = { version = "3", default-features = false }
dirs = "6"
