[package]
name = "pbh"
version = "0.1.0"
edition = "2021"
publish = false

[dependencies]
ip_network = "0.4"
ip_network_table = "0.2"
ipnet = "2"
regex = "1"
sha2 = "0.10"
semver = "1"
flate2 = "1"
serde = { version = "1", features = ["derive"] }
serde_json = "1"
serde_yaml = "0.9"
tokio = { version = "1", features = ["full"] }
reqwest = { version = "0.12", default-features = false, features = ["json", "gzip", "cookies", "rustls-tls"] }
axum = { version = "0.7", features = ["ws"] }
moka = { version = "0.12", features = ["sync"] }
parking_lot = "0.12"
tracing = "0.1"
tracing-subscriber = { version = "0.3", features = ["env-filter"] }
tracing-appender = "0.2"
arc-swap = "1"
maxminddb = "0.24"
hickory-resolver = "0.24"
sqlx = { version = "0.7", default-features = false, features = ["runtime-tokio", "sqlite"] }
getrandom = "0.2"
thiserror = "1"
async-trait = "0.1"
libc = "0.2"
