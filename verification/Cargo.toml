[package]
name = "vex-bridge"
version = "0.1.0"
edition = "2021"
publish = false

[dependencies]
base64 = "=0.22.1"
blake3 = { version = "=1.8.7", features = ["pure"] }
clap = { version = "=4.6.7", features = ["derive"] }
directories = "=5.0.1"
ed25519-dalek = "=2.2.0"
keyring = { version = "3", default-features = false, features = ["linux-native"] }
open = "=5.4.5"
png = "=0.18.1"
rand = "=0.8.8"
reqwest = { version = "0.12", default-features = false, features = ["json", "rustls-tls"] }
serde = { version = "=1.0.229", features = ["derive"] }
serde_json = "=1.0.154"
sha2 = "=0.10.9"
thiserror = "=1.0.69"
tokio = { version = "1", features = ["rt-multi-thread", "macros", "time", "sync", "fs"] }
toml = "=0.8.23"
tracing = "=0.1.44"
tracing-subscriber = { version = "=0.3.23", features = ["env-filter"] }
uuid = { version = "=1.29.0", features = ["v7"] }
