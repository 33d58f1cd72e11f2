[package]
name = "cc_proxy"
version = "0.2.3"
edition = "2021"
publish = false

[dependencies]
serde_json = "1"
serde = { version = "1", features = ["derive"] }
uuid = { version = "1", features = ["v4"] }
anyhow = "1"
async-stream = "0.3"
axum = "0.7"
bytes = "1"
console = "0.15"
dirs = "5"
futures = "0.3"
libc = "0.2"
reqwest = { version = "0.12", default-features = false, features = ["json", "stream", "rustls-tls"] }
thiserror = "1"
tokio = { version = "1", features = ["full"] }
tower-http = { version = "0.6", features = ["cors"] }
tracing = "0.1"
