[package]
name = "hydra"
version = "0.1.0"
edition = "2021"
publish = false

[dependencies]
uuid = { version = "=1.29.0", features = ["v4", "serde"] }
sha1 = "=0.10.7"
base64 = "=0.21.7"
http = "=0.2.12"
lru = "=0.12.5"
serde = { version = "=1.0.229", features = ["derive"] }
serde_json = "=1.0.154"
rmp-serde = "=1.3.1"
tokio = { version = "=1.54.1", features = ["full"] }
axum = { version = "=0.6.20", features = ["ws"] }
futures-util = { version = "=0.3.34", features = ["sink"] }
tokio-tungstenite = "=0.20.1"
hyper = { version = "=0.14.32", features = ["full"] }
redis = { version = "=0.23.5", features = ["tokio-comp"] }
bollard = "=0.15.0"
reqwest = { version = "=0.11.27", default-features = false, features = ["json", "stream"] }
portable-pty = "=0.8.1"
log = "=0.4.35"
pretty_env_logger = "=0.5.0"
dotenv = "=0.15.0"
toml = "=0.8.23"
anyhow = "=1.0.104"
serde-humanize-rs = "0.1"
axum-server = { version = "0.5", features = ["tls-rustls"] }
dns-lookup = "2"
tower = { version = "0.4", features = ["util"] }
tower-http = { version = "0.4", features = ["cors"] }
