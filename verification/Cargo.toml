[package]
name = "lsp_bridge"
version = "0.1.0"
edition = "2021"
publish = false

[dependencies]
axum = "0.8"
httparse = "1"
jsonrpc = { version = "0.18", default-features = false }
lsp-types = "0.95"
serde = { version = "1", features = ["derive"] }
serde_json = "1"
tokio = { version = "1", features = ["full"] }
uuid = { version = "1", features = ["v4"] }
