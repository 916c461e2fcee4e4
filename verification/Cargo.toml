[package]
name = "inference_gateway"
version = "0.1.0"
edition = "2021"
publish = false

[dependencies]
anyhow = "1"
async-stream = "0.3"
axum = "0.8"
bytes = "1"
chrono = "0.4"
clap = { version = "4", features = ["derive"] }
fred = { version = "10", features = ["i-streams"] }
futures-util = "0.3"
prost = "0.14"
redis = { version = "0.32", features = ["tokio-comp", "connection-manager", "script"] }
reqwest = { version = "0.12", default-features = false, features = ["json", "stream", "http2"] }
serde = { version = "1", features = ["derive"] }
serde_json = "1"
serde_yaml = "0.9"
sha2 = "0.10"
temporalio-client = "*"
temporalio-common = "*"
temporalio-macros = "*"
temporalio-sdk = "*"
temporalio-sdk-core = "*"
thiserror = "2"
tokio = { version = "1", features = ["full"] }
tower-http = { version = "0.6", features = ["cors", "trace"] }
tracing = "0.1"
tracing-subscriber = { version = "0.3", features = ["env-filter", "json"] }
url = "2"
uuid = { version = "1", features = ["v4", "serde"] }
