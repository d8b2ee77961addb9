[package]
name = "glpi_mcp"
version = "0.1.0"
edition = "2021"
publish = false

[dependencies]
chrono = "*"
secrecy = "*"
serde = { version = "1", features = ["derive"] }
serde_json = "1"
thiserror = "*"
anyhow = "1"
dotenvy = "*"
reqwest = { version = "*", default-features = false, features = ["json", "rustls-tls"] }
rmcp = { version = "*", features = ["server", "macros", "transport-io", "transport-streamable-http-server"] }
schemars = "*"
tokio = { version = "1", features = ["full"] }
tokio-util = "*"
axum = "*"
tracing = "*"
tracing-subscriber = { version = "*", features = ["env-filter", "fmt"] }
