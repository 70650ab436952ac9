[package]
name = "tezos_auth"
version = "0.1.0"
edition = "2021"
publish = false

[dependencies]
base64 = "=0.23.1"
blake2 = "=0.11.0"
bs58 = "=0.5.1"
ed25519-dalek = "=3.0.0"
hmac = "=0.13.0"
k256 = "=0.14.0"
p256 = "=0.14.0"
rand = "=0.10.3"
sha2 = "=0.11.0"
uuid = { version = "=1.27.0", features = ["v4"] }
axum = "=0.8.9"
axum-extra = { version = "=0.12.6", features = ["cookie"] }
serde = { version = "=1.0.229", features = ["derive"] }
serde_json = "=1.0.151"
time = "=0.3.55"
tokio = { version = "=1.53.2", features = ["rt-multi-thread", "macros", "net"] }
