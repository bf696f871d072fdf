[package]
name = "mcpg_plugin_identity_oidc_core"
version = "0.1.0"
edition = "2021"
publish = false

[dependencies]
anyhow = "1"
base64 = "=0.22.1"
http = "=1.5.0"
jsonwebtoken = "9"
metrics = "=0.24.6"
reqwest = { version = "=0.12.28", default-features = false, features = ["json", "rustls-tls"] }
schemars = "=1.2.3"
serde = { version = "1", features = ["derive"] }
serde_json = "=1.0.154"
tracing = "0.1"
url = "=2.5.8"
