[package]
name = "crypt_split"
version = "0.1.0"
edition = "2021"
publish = false

[dependencies]
aes-gcm-siv = "0.11"
aes-kw = { version = "0.2", features = ["alloc"] }
hmac = "0.12"
sha2 = "0.10"
scrypt = "0.11"
password-hash = { version = "0.5", features = ["rand_core"] }
subtle = "2"
zeroize = "1"
hex = "0.4"
uuid = { version = "1", features = ["v4"] }
rand = "0.8"
clap = { version = "4", features = ["derive"] }
dotenv = "0.15"
redis = "*"
serde = { version = "1", features = ["derive"] }
serde_json = "1"
