[package]
name = "lsp_proxy"
version = "0.1.0"
edition = "2021"
publish = false

[dependencies]
serde = { version = "1", features = ["derive"] }
serde_json = "1"
agent-client-protocol = "*"
anyhow = "1"

[dev-dependencies]
lsp-types = "*"
