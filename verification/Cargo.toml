[package]
name = "powerpaste"
version = "0.1.0"
edition = "2021"
publish = false

[dependencies]
argon2 = "0.5"
base64 = "0.22"
chacha20poly1305 = "0.10"
rand = "0.8"
uuid = { version = "1", features = ["v4", "serde"] }
zeroize = "1"
rusqlite = { version = "0.31", features = ["bundled"] }
serde = { version = "1", features = ["derive"] }
serde_json = "1"
arboard = "3"
image = { version = "0.25", default-features = false, features = ["png"] }
keyring = "3"
