[package]
name = "mpc_websocket"
version = "0.1.0"
edition = "2021"
publish = false

[dependencies]
uuid = { version = "=1.27.0", features = ["v4"] }
serde = { version = "=1.0.229", features = ["derive"] }
serde_json = "=1.0.151"
json-rpc2 = "=0.11.1"
tokio = { version = "=1.53.2", features = ["full"] }
warp = { version = "=0.4.3", features = ["server", "websocket"] }
futures-util = "=0.3.34"
tokio-stream = "=0.1.19"
log = "=0.4.34"
pretty_env_logger = "=0.5.0"
clap = { version = "=4.6.7", features = ["derive"] }
thiserror = "=2.0.21"
