[package]
name = "msd_core"
version = "0.1.0"
edition = "2021"
publish = false

[dependencies]
anyhow = "1"
aws-config = "*"
aws-sdk-cloudwatch = "*"
jsonwebtoken = { version = "=11.1.0", features = ["rust_crypto"] }
mc-query = "=2.0.0"
reqwest = { version = "*", default-features = false, features = ["json"] }
serde = { version = "1", features = ["derive"] }
serde_json = "=1.0.151"
sysinfo = "=0.39.6"
tiny_http = "=0.12.0"
tokio = { version = "1", features = ["macros", "rt-multi-thread", "time", "process"] }

[dev-dependencies]
base64 = "=0.22.1"
rand = "0.8"
rsa = "=0.9.10"
