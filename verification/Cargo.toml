[package]
name = "auth2_core"
version = "0.1.0"
edition = "2021"
publish = false

[dependencies]
aes-gcm = "=0.10.3"
anyhow = "=1.0.104"
async-trait = "=0.1.92"
base64 = "=0.22.1"
frostflake = { version = "=0.4.1", features = ["tokio"] }
pbkdf2 = "=0.12.2"
rand = "=0.8.8"
serde = { version = "=1.0.229", features = ["derive"] }
serde_json = "=1.0.154"
sha2 = "=0.10.9"
sqlx = { version = "=0.8.6", default-features = false, features = ["sqlite", "runtime-tokio", "migrate", "derive", "json"] }
thiserror = "=1.0.69"
tokio = { version = "=1.54.1", features = ["rt-multi-thread", "fs"] }
totp-rs = { version = "=5.7.2", features = ["otpauth"] }
tracing = "=0.1.44"
tracing-subscriber = "=0.3.23"
uniffi = "=0.32.2"
