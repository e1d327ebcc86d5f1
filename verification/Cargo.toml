[package]
name = "pqguard"
version = "0.1.0"
edition = "2021"
publish = false

[dependencies]
aes-gcm = "0.10"
hkdf = "0.12"
sha2 = "0.10"
ml-kem = "0.2"
rand = "0.8"
base64 = "0.22"
colored = "2"
anyhow = "1"
