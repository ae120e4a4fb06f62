[package]
name = "chat_security"
version = "0.1.0"
edition = "2021"
publish = false

[dependencies]
chacha20poly1305 = "0.10"
hkdf = "0.12"
sha2 = "0.10"
x25519-dalek = "2"
rand = "0.8"
clap = { version = "4", features = ["derive"] }
crossterm = "0.28"
