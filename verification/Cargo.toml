[package]
name = "mitm_proxy"
version = "0.1.0"
edition = "2021"
publish = false

[dependencies]
openssl = "0.10"
hyper = { version = "0.14", features = ["full"] }
tokio = { version = "1", features = ["full"] }
rustls = "0.20"
tokio-rustls = "0.23"
hyper-tls = "0.5"
futures = "0.3"
