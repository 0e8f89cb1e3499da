[package]
name = "netscan"
version = "0.1.0"
edition = "2021"
publish = false

[dependencies]
tokio = { version = "1", features = ["full"] }
hyper = { version = "0.14", features = ["client", "http1", "tcp"] }
hyper-rustls = "0.23"
surge-ping = "0.8"
clap = { version = "3", features = ["derive"] }
colored = "2"
local_ipaddress = "0.1"
futures = "0.3"
