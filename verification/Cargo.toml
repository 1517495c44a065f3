[package]
name = "cinematch"
version = "0.1.0"
edition = "2021"
publish = false

[dependencies]
uuid = { version = "=1.29.1", features = ["v4", "serde"] }
sha2 = "=0.10.9"
chrono = { version = "=0.4.45", default-features = false, features = ["clock", "std", "serde"] }
serde = { version = "=1.0.229", features = ["derive"] }
serde_json = "=1.0.154"
axum = { version = "=0.8.9", features = ["ws"] }
tokio = { version = "=1.54.1", features = ["full"] }
sqlx = { version = "=0.8.6", default-features = false, features = ["runtime-tokio", "postgres", "uuid", "chrono"] }
reqwest = { version = "=0.12.28", default-features = false, features = ["json", "rustls-tls"] }
biscuit-auth = "=5.0.0"
futures-util = "=0.3.34"
tracing = "=0.1.44"
tracing-subscriber = { version = "=0.3.23", features = ["env-filter"] }
opentelemetry = "=0.28.0"
opentelemetry_sdk = "=0.28.0"
opentelemetry-otlp = { version = "=0.28.0", features = ["grpc-tonic"] }
tracing-opentelemetry = "=0.29.0"
