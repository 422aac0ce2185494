[package]
name = "file-mcp"
version = "0.1.0"
edition = "2021"
publish = false

[dependencies]
axum = "0.7"
libc = "0.2"
serde_json = "1"
tokio = { version = "1", features = ["full"] }
uuid = { version = "1", features = ["v4"] }
