[package]
name = "rift"
version = "0.1.0"
edition = "2021"
publish = false

[dependencies]
rand = "0.8"
uuid = { version = "1", features = ["v4"] }
futures = "0.3"
tokio = { version = "1", features = ["full"] }
hyper = { version = "0.14", features = ["server", "http1", "tcp"] }
prometheus = "0.13"
slog = "2"
slog-async = "2"
slog-json = "2"
slog-term = "2"
structopt = "0.3"
exitcode = "1"
lazy_static = "1"
