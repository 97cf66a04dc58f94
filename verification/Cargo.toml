[package]
name = "mcp_inspector_mcp"
version = "0.3.1"
edition = "2021"
publish = false

[dependencies]
anyhow = "1"
async-trait = "0.1"
chrono = "0.4"
clap = { version = "4", features = ["derive"] }
colored = "2"
hdrhistogram = "7"
once_cell = "1"
rmcp = { version = "0.8", features = ["client", "server", "macros", "transport-child-process", "transport-io"] }
schemars = "1"
serde = { version = "1", features = ["derive"] }
serde_json = "1"
serde_yaml = "0.9"
sled = "0.34"
thiserror = "2"
tokio = { version = "1", features = ["full"] }
tracing = "0.1"
tracing-appender = "0.2"
tracing-subscriber = "0.3"
