[package]
name = "grpc_compression"
version = "0.1.0"
edition = "2021"
publish = false

[dependencies]
bytes = "1"
http = "0.2"
tracing = { version = "0.1", default-features = false, features = ["std"] }

[dev-dependencies]
flate2 = "1"
