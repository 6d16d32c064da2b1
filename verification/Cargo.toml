[package]
name = "beacon"
version = "0.1.0"
edition = "2021"
publish = false

[dependencies]
alacritty_terminal = "=0.25.1"
anyhow = "=1.0.104"
base64 = "=0.23.1"
directories = "=6.0.0"
flate2 = "=1.1.10"
futures = "=0.3.34"
k8s-openapi = { version = "=0.28.0", features = ["latest"] }
kube = { version = "=4.2.0", features = ["runtime", "ws", "gzip", "oidc", "http-proxy"] }
nucleo-matcher = "=0.3.1"
serde = { version = "=1.0.229", features = ["derive"] }
serde-saphyr = "=2.0.0"
serde_json = { version = "=1.0.154", features = ["preserve_order"] }
thiserror = "=2.0.21"
tokio = { version = "=1.54.1", features = ["full"] }
tracing = "=0.1.44"
tracing-appender = "=0.2.5"
tracing-subscriber = { version = "=0.3.23", features = ["env-filter"] }
