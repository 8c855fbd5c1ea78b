[package]
name = "av-core"
version = "0.1.0"
edition = "2021"
publish = false

[dependencies]
anyhow = "=1.0.104"
base64 = "=0.21.7"
chrono = { version = "=0.4.45", features = ["serde"] }
clap = { version = "=4.6.7", features = ["derive"] }
config = { version = "*", default-features = false }
ed25519-dalek = "=2.2.0"
fanotify-rs = "*"
hex = "=0.4.3"
notify = "=6.1.1"
parking_lot = "=0.12.5"
reqwest = { version = "=0.11.27", default-features = false, features = ["rustls-tls"] }
ring = "=0.17.14"
semver = { version = "=1.0.28", features = ["serde"] }
serde = { version = "=1.0.229", features = ["derive"] }
serde_json = "=1.0.154"
sha2 = "=0.10.9"
tokio = { version = "=1.54.1", features = ["full"] }
tracing = "=0.1.44"
tracing-subscriber = { version = "=0.3.23", features = ["env-filter"] }
url = { version = "=2.5.8", features = ["serde"] }
yara = { version = "=0.32.0", default-features = false, features = ["vendored", "bundled-4_5_5", "ndebug"] }
