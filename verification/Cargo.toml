[package]
name = "mwc713"
version = "0.1.0"
edition = "2021"
publish = false

[dependencies]
secp256k1 = "*"
sha2 = "*"
aes-gcm = "*"
rand = "*"
serde_json = "*"
reqwest = { version = "*", default-features = false, features = ["blocking"] }
