[package]
name = "montrs"
version = "0.1.0"
edition = "2021"
publish = false

[dependencies]
regex = "1"
uuid = { version = "1", features = ["v4"] }
serde = { version = "1", features = ["derive"] }
serde_json = "1"
serde_yaml = "0.9"
toml = "0.8"
chrono = { version = "0.4", features = ["serde"] }
walkdir = "2"
ignore = "0.4"
anyhow = "1"
thiserror = "1"
tokio = { version = "1", features = ["full"] }
clap = { version = "4", features = ["derive"] }
clap_complete = "4"
colored = "2"
console = "0.15"
indicatif = "0.17"
statrs = "0.17"
sysinfo = "0.30"
rustc_version_runtime = "0.3"
quick-xml = "0.31"
async-trait = "0.1"
cargo_metadata = "0.18"
parking_lot = "0.12"
slotmap = "1"
tracing = "0.1"
tracing-subscriber = "0.3"
rusqlite = { version = "0.31", features = ["bundled"] }
tokio-postgres = "0.7"
deadpool-postgres = "0.12"
