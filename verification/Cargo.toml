[package]
name = "passenger_resource_management"
version = "0.1.0"
edition = "2021"
publish = false

[dependencies]
uuid = { version = "1", features = ["v4"] }
sha2 = "0.10"
hex = "0.4"
subtle = "2"
thiserror = "2"
serde = { version = "1", features = ["derive"] }
serde_json = "1"
utoipa = "5"
axum = "0.8"
tokio = { version = "1", features = ["full"] }
tower = { version = "0.5", features = ["util"] }
tower-http = { version = "0.6", features = ["cors", "request-id", "set-header", "trace"] }
tower_governor = "0.7"
tracing = "0.1"
tracing-subscriber = { version = "0.3", features = ["env-filter", "json"] }
clap = { version = "4", features = ["derive", "env"] }
rusqlite = { version = "*", features = ["bundled"] }
sqlx = { version = "0.8", default-features = false, features = ["postgres", "runtime-tokio"] }
