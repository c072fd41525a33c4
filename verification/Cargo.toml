[package]
name = "orchestrator"
version = "0.1.0"
edition = "2021"
publish = false

[dependencies]
url = "=2.5.8"
uuid = { version = "=1.29.0", features = ["v4"] }
base64 = "=0.22.1"
serde = { version = "=1.0.229", features = ["derive"] }
serde_json = "=1.0.154"
opentalk-types-common = "=0.50.0"
opentalk-service-auth = { version = "=0.6.0", features = ["axum"] }
livekit-api = { version = "0.10.0", default-features = false, features = ["access-token"] }
anyhow = "1"
thiserror = "2"
async-trait = "0.1"
tokio = { version = "1", features = ["full"] }
axum = { version = "0.8", features = ["ws"] }
reqwest = { version = "0.12", default-features = false, features = ["json", "rustls-tls"] }
redis = { version = "1.8.1", default-features = false, features = ["tokio-comp", "script"] }
clap = { version = "4", features = ["derive"] }
tracing = "0.1"
tracing-subscriber = { version = "0.3", features = ["env-filter"] }
config = { version = "*", default-features = false, features = ["toml"] }
dirs = "*"
serde_path_to_error = "*"
tokio-tungstenite = "*"
futures-util = "0.3"
opentalk-types-api-common = { version = "*", features = ["axum"] }
service-probe = "*"
