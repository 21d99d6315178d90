[package]
name = "vise"
version = "0.1.0"
edition = "2021"
publish = false

[dependencies]
elsa = "1.9"
once_cell = "1"
prometheus-client = "0.22"
tokio = { version = "1", features = ["rt-multi-thread", "net", "time", "sync", "macros", "io-util"] }
hyper = { version = "1", features = ["http1", "server", "client"] }
hyper-util = { version = "0.1", features = ["client-legacy", "tokio", "http1"] }
http-body-util = "0.1"
tracing = "0.1"

[dev-dependencies]
rand = "0.8"
