[package]
name = "time_stamp"
version = "0.1.0"
edition = "2021"
publish = false

[dependencies]
async-generic = "=1.1.2"
bcder = "=0.7.7"
bytes = "=1.12.1"
chrono = { version = "=0.4.45", default-features = false }
coset = "=0.3.8"
rand = "=0.8.8"
serde = { version = "=1.0.229", features = ["derive"] }
serde_bytes = "=0.11.19"
serde_cbor = "=0.11.2"
ureq = "=2.12.1"
x509-certificate = "=0.21.0"

[dev-dependencies]
cryptographic-message-syntax = { version = "=0.24.0", default-features = false }
