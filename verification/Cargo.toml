[package]
name = "ipc_client"
version = "0.1.0"
edition = "2021"
publish = false

[dependencies]
async-trait = "=0.1.92"
chrono = "=0.4.45"
fern = "=0.7.1"
log = "=0.4.34"
serde_json = { version = "=1.0.154", features = ["preserve_order"] }
tokio = { version = "=1.54.1", features = ["full"] }
