[package]
name = "pwcrypt"
version = "0.1.0"
edition = "2021"
publish = false

[dependencies]
argon2 = "0.5"
chacha20poly1305 = "0.10"
rand = "0.8"
sha3 = "0.10"
zeroize = "1"
