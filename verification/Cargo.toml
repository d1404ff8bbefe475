[package]
name = "tokio_io_timeout"
version = "0.4.0"
edition = "2021"
publish = false

[dependencies]
bytes = "0.4"
futures-preview = "0.3.0-alpha.19"
tokio-io = "0.2.0-alpha.6"
tokio-timer = "0.3.0-alpha.6"

[dev-dependencies]
tokio = "0.2.0-alpha.6"
