[package]
name = "xai_grok_pager"
version = "0.1.0"
edition = "2021"
publish = false

[dependencies]
toml = { version = "*", features = ["preserve_order"] }
tokio = { version = "1", features = ["rt", "process", "io-util", "macros", "sync"] }
tokio-util = { version = "*", features = ["compat"] }
anyhow = "1"
tracing = "*"
agent-client-protocol = "*"
