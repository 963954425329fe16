[package]
name = "text_embeddings_router"
version = "0.1.0"
edition = "2021"
publish = false

[dependencies]
anyhow = "1"
axum = { version = "0.6", features = ["json"] }
axum-tracing-opentelemetry = "0.14"
futures = "0.3"
metrics = "0.21"
metrics-exporter-prometheus = { version = "0.12", default-features = false }
serde = { version = "1", features = ["derive"] }
serde_json = "1"
tokio = { version = "1", features = ["rt", "rt-multi-thread", "sync", "signal", "macros"] }
tower-http = { version = "0.4", features = ["cors"] }
tracing = "0.1"
utoipa = { version = "4", features = ["axum_extras"] }
utoipa-swagger-ui = { version = "4", features = ["axum"] }
