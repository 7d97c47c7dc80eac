[package]
name = "niri_tools"
version = "0.1.0"
edition = "2021"
publish = false

[dependencies]
regex = "=1.13.1"
fuzzy-matcher = "=0.3.7"
kdl = { version = "=6.7.1", features = ["v1-fallback"] }
serde = { version = "=1.0.229", features = ["derive"] }
serde_json = "=1.0.154"
bincode = { version = "=2.0.1", features = ["serde"] }
clap = { version = "=4.6.7", features = ["derive"] }
tokio = { version = "=1.54.1", features = ["full"] }
tokio-stream = "=0.1.19"
futures-util = "=0.3.34"
futures-core = "=0.3.34"
async-trait = "=0.1.92"
anyhow = "=1.0.104"
thiserror = "=2.0.21"
tracing = "=0.1.44"
tracing-subscriber = { version = "=0.3.23", features = ["env-filter"] }
gtk4 = "=0.11.5"
gtk4-layer-shell = "=0.8.1"
