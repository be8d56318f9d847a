[package]
name = "smarthy"
version = "0.1.0"
edition = "2021"
publish = false

[dependencies]
serde = { version = "1", features = ["derive"] }
serde_json = "1"
tokio = { version = "1", features = ["full"] }
tokio-tungstenite = "*"
tungstenite = "*"
futures-util = "0.3"
clap = { version = "4", features = ["derive", "env"] }
config = { version = "*", default-features = false, features = ["yaml"] }
thiserror = "*"
tracing = "0.1"
tracing-subscriber = { version = "0.3", features = ["env-filter", "local-time"] }
log = "0.4"
atomic_float = "*"
