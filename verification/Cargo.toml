[package]
name = "mzsniffer"
version = "0.1.0"
edition = "2021"
publish = false

[dependencies]
quick-xml = "=0.31.0"
base64 = "=0.13.1"
async-compression = { version = "=0.4.50", default-features = false, features = ["futures-io", "zlib"] }
futures = "=0.3.34"
serde = { version = "=1.0.229", features = ["derive"] }
serde_json = "=1.0.151"
serde-pickle = "*"
clap = "=4.5.61"
anyhow = "=1.0.104"
log = "=0.4.34"
env_logger = "=0.11.11"
