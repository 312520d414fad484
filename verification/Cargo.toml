[package]
name = "drpc"
version = "0.1.0"
edition = "2021"
publish = false

[dependencies]
serde_json = { version = "1", features = ["float_roundtrip"] }
uuid = { version = "1", features = ["v4"] }
eetf = "*"
serde = { version = "1", features = ["derive"] }
tokio = { version = "1", features = ["full"] }
axum = { version = "0.8", features = ["ws"] }
futures = "0.3"
parking_lot = "0.12"
clap = { version = "4", features = ["derive"] }
toml = "*"
tracing = "0.1"
tracing-subscriber = { version = "0.3", features = ["env-filter", "json"] }
anyhow = "1"
thiserror = "*"
once_cell = "1"
async-trait = "0.1"
