[package]
name = "tcp_tunnel"
version = "0.1.0"
edition = "2021"
publish = false

[dependencies]
base64 = "0.22"
tokio = { version = "1", features = ["full"] }
tokio-tungstenite = "0.24"
futures-util = { version = "0.3", features = ["sink"] }
hyper = { version = "1", features = ["server", "http1"] }
hyper-util = { version = "0.1", features = ["tokio"] }
http-body-util = "0.1"
