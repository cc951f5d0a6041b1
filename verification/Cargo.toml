[package]
name = "echo_server"
version = "0.1.0"
edition = "2021"
publish = false

[dependencies]
clap = "=2.34.0"
env_logger = "=0.9.3"
hyper = { version = "=0.14.32", features = ["full"] }
log = "=0.4.34"
tokio = { version = "=1.53.2", features = ["full"] }
webrtc-unreliable = { version = "=0.6.0", features = ["tokio"] }
