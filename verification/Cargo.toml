[package]
name = "provider_failover"
version = "0.1.0"
edition = "2021"
publish = false

[dependencies]
agent-client-protocol = "=5.0.0"
anyhow = "=1.0.104"
async-stream = "=0.3.6"
chrono = "=0.4.45"
crossterm = "=0.28.1"
futures-util = "=0.3.34"
ratatui = "=0.29.0"
reqwest = { version = "=0.12.28", default-features = false }
serde = { version = "=1.0.229", features = ["derive"] }
# The order of the keys of an object is kept: what is said of rebuilt objects rests on it.
serde_json = { version = "=1.0.154", features = ["preserve_order"] }
tokio = { version = "=1.54.1", features = ["rt", "sync", "time", "macros"] }
tokio-util = "=0.7.20"
toml_edit = "=0.22.27"
tracing = "=0.1.44"
uuid = { version = "=1.29.0", features = ["v4"] }
