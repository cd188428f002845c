[package]
name = "ws_udp_bridge"
version = "0.1.0"
edition = "2021"
publish = false

[dependencies]
clap = { version = "4", features = ["derive"] }
env_logger = "*"
futures-util = "0.3"
log = "0.4"
tokio = { version = "1", features = ["macros", "net", "rt-multi-thread", "io-util"] }
tokio-tungstenite = "*"
