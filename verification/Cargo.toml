[package]
name = "stream_owl"
version = "0.1.0"
edition = "2021"
publish = false

[dependencies]
rangemap = "=1.8.0"
socket2 = { version = "=0.5.10", features = ["all"] }
http = "=1.5.0"
tokio = { version = "=1.54.1", features = ["sync", "rt", "rt-multi-thread", "time", "net", "fs", "io-util", "macros"] }
network-interface = "=1.1.4"
hyper = { version = "=1.12.0", features = ["client", "http1"] }
http-body-util = "=0.1.5"
bytes = "=1.12.1"
hickory-resolver = "=0.24.4"
governor = "=0.6.3"
futures = "=0.3.34"
futures-concurrency = "=7.7.1"
thiserror = "=1.0.69"
axum = "0.7"
tower-http = { version = "0.5", features = ["fs"] }
