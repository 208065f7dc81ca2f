[package]
name = "phazeid"
version = "0.1.0"
edition = "2021"
publish = false

[dependencies]
aes-gcm = "=0.10.3"
argon2 = "=0.6.0"
base64 = "=0.22.1"
blake3 = "=1.8.7"
bson = "=3.1.0"
chrono = "=0.4.45"
rand = "=0.8.8"
regex = "=1.13.1"
rsa = "=0.9.10"
sha2 = "=0.10.9"
totp-rs = { version = "=6.0.0", features = ["otpauth"] }
urlencoding = "=2.1.3"
