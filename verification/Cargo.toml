[package]
name = "passlock"
version = "0.1.0"
edition = "2021"
publish = false

[dependencies]
aes-gcm = "0.10"
getrandom = "0.2"
pbkdf2 = "0.12"
sha2 = "0.10"
