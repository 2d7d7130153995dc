[package]
name = "cosigner"
version = "0.1.0"
edition = "2021"
publish = false

[dependencies]
age = { version = "=0.11.5", features = ["armor"] }
anyhow = "=1.0.104"
async-trait = "=0.1.92"
axum = { version = "=0.8.9" }
bitcoin = { version = "=0.32.102", features = ["base64", "rand-std", "serde"] }
bitcoincore-rpc = "=0.19.0"
clap = { version = "=4.6.7", features = ["derive"] }
http-body-util = "=0.1.5"
image = { version = "=0.25.10", default-features = false, features = ["png", "jpeg", "webp"] }
lettre = { version = "=0.11.23", default-features = false, features = ["builder", "smtp-transport", "tokio1-rustls-tls"] }
miniscript = "=12.3.8"
nostr-sdk = { version = "=0.43.0", features = ["nip59"] }
qrcode = { version = "=0.14.1", default-features = false, features = ["svg"] }
reqwest = { version = "=0.12.28", default-features = false, features = ["rustls-tls"] }
rqrr = "=0.10.1"
scrypt = { version = "=0.11.0", default-features = false }
serde = { version = "=1.0.229", features = ["derive"] }
serde_json = "=1.0.154"
sqlx = { version = "=0.8.6", default-features = false, features = ["runtime-tokio", "sqlite"] }
tokio = { version = "=1.54.1", features = ["macros", "rt-multi-thread", "net", "time", "sync", "signal"] }
toml = "=0.9.12+spec-1.1.0"
tower = { version = "=0.5.3", features = ["util"] }
tracing = "=0.1.44"
tracing-subscriber = { version = "=0.3.23", features = ["env-filter"] }
zeroize = "=1.9.1"
