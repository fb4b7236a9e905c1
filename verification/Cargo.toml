[package]
name = "openocr"
version = "0.1.0"
edition = "2021"
publish = false

[dependencies]
anyhow = "1"
base64 = "=0.22.1"
clap = { version = "4", features = ["derive"] }
dirs = "*"
image = { version = "=0.25.10", default-features = false, features = ["png"] }
rig-core = "=0.32.0"
serde = { version = "1", features = ["derive"] }
serde_json = "1"
tokio = { version = "1", features = ["full"] }
tw-colors = "*"
uuid = { version = "=1.29.0", features = ["v4"] }
