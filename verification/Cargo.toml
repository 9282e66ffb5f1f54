[package]
name = "blutgang"
version = "0.1.0"
edition = "2021"
publish = false

[dependencies]
rand = "=0.8.8"
toml = "=0.8.23"
clap = "=4.6.7"
tokio = { version = "=1.53.2", features = ["rt", "macros", "net", "time", "io-util"] }
hyper = { version = "=1.12.0", features = ["client", "http1"] }
http-body-util = "=0.1.5"
hyper-util-blutgang = { version = "=0.2.0", features = ["tokio"] }
