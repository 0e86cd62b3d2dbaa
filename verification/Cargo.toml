[package]
name = "zssp"
version = "0.1.0"
edition = "2021"
publish = false

[dependencies]
p384 = { version = "=0.13.1", default-features = false, features = ["ecdh", "std"] }
aes-gcm = "=0.10.3"
hmac = "=0.12.1"
sha2 = "=0.10.9"
rand_core = { version = "=0.6.4", features = ["getrandom"] }
