[package]
name = "claw"
version = "0.1.0"
edition = "2021"
publish = false

[dependencies]
anyhow = "=1.0.104"
async-trait = "=0.1.92"
# Without "json", which would turn on serde_json's "raw_value": with that, an
# object with a certain key is no longer read as it is written.
axum = { version = "=0.8.9", default-features = false, features = ["http1", "tokio"] }
clap = { version = "=4.6.7", features = ["derive"] }
jiff = { version = "=0.2.39", default-features = false, features = ["std", "alloc", "tzdb-bundle-always"] }
reqwest = { version = "=0.12.28", default-features = false, features = ["json", "rustls-tls"] }
rusqlite = { version = "=0.37.0", features = ["bundled"] }
serde = { version = "=1.0.229", features = ["derive"] }
serde_json = "=1.0.154"
thiserror = "=2.0.21"
tokio = { version = "=1.54.1", features = ["full"] }
tokio-util = { version = "=0.7.20", features = ["codec"] }
tracing = "=0.1.44"
tracing-appender = "=0.2.5"
tracing-subscriber = { version = "=0.3.23", features = ["env-filter"] }
ulid = "=1.2.1"
