[package]
name = "totp"
version = "0.1.0"
edition = "2021"
publish = false

[dependencies]
base32 = "0.4"
hmac = "0.7"
sha-1 = "0.8"
rand = "0.7"
pad = "0.1"
