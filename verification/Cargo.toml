[package]
name = "otel-rust-demo"
version = "0.1.0"
edition = "2021"
publish = false

[dependencies]
anyhow = "1"
axum = "0.8"
opentelemetry = "0.32"
opentelemetry-appender-tracing = "0.32"
opentelemetry-http = { version = "0.32", default-features = false }
opentelemetry-otlp = { version = "0.32", default-features = false, features = ["grpc-tonic", "trace", "logs"] }
opentelemetry-prometheus = "0.32"
opentelemetry_sdk = { version = "0.32", features = ["trace", "metrics", "logs"] }
prometheus = "*"
reqwest = { version = "*", default-features = false }
tokio = { version = "1", features = ["macros", "net", "rt-multi-thread", "time"] }
tower-http = { version = "*", features = ["trace"] }
tracing = "0.1"
tracing-opentelemetry = "0.33"
tracing-subscriber = { version = "0.3", features = ["env-filter"] }
