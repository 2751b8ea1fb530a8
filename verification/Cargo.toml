[package]
name = "user_api"
version = "0.1.0"
edition = "2021"
publish = false

[dependencies]
axum = "0.6"
color-eyre = "0.6"
hyper = { version = "0.14", features = ["full"] }
serde = { version = "1", features = ["derive"] }
serde_json = "1"
thiserror = "1"
tokio = { version = "1", features = ["macros", "net", "rt", "sync"] }
tower = { version = "0.4", features = ["util"] }
tower-http = { version = "0.4", features = ["trace"] }
tracing = "0.1"
tracing-error = "0.2"
tracing-subscriber = "0.3"
tracing-tree = "0.3"
