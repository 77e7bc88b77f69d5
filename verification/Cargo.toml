[package]
name = "persistence"
version = "0.1.0"
edition = "2021"
publish = false

[dependencies]
aes-gcm = "=0.10.3"
argon2 = { version = "=0.5.3", features = ["std"] }
base64 = "=0.22.1"
calamine = "=0.26.1"
csv = "=1.4.0"
hex = "=0.4.3"
serde = { version = "=1.0.229", features = ["derive"] }
serde_json = "=1.0.154"
sha2 = "=0.10.9"
sqlx = { version = "=0.8.6", default-features = false, features = ["postgres", "runtime-tokio", "uuid", "json", "migrate"] }
thiserror = "=2.0.21"
tracing = "=0.1.44"
uuid = { version = "=1.29.0", features = ["v4"] }
zip = { version = "=2.5.0", default-features = false, features = ["deflate"] }
