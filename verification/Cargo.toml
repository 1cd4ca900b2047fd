[package]
name = "extenddb_storage"
version = "0.1.0"
edition = "2021"
publish = false

[dependencies]
base64 = "0.22"
bigdecimal = "0.4"
crc32fast = "1"
rand = "0.9"
aes-gcm = "0.10"
bcrypt = "0.17"
serde = { version = "1", features = ["derive"] }
toml = "0.8"
tokio = { version = "1", features = ["rt", "macros"] }
async-trait = "0.1"
