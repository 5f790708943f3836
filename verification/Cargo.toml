[package]
name = "encrypted_tao"
version = "0.1.0"
edition = "2021"
publish = false

[dependencies]
aes = "0.8"
hmac = "0.12"
sha2 = "0.10"
base64 = "0.22"
tink-core = "0.2"
tink-daead = "0.2"
tink-proto = "0.2"
actix-web = { version = "4", default-features = false, features = ["macros"] }
actix-rt = "2"
awc = { version = "3", default-features = false }
dotenv = "0.15"
futures = "0.3"
serde = { version = "1", features = ["derive"] }
serde_json = "1"
tokio = { version = "1", features = ["rt", "macros"] }
tokio-postgres = "0.7"
