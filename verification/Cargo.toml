[package]
name = "lambda"
version = "0.1.0"
edition = "2021"
publish = false

[dependencies]
serde = "1"
serde_json = "1"
hyper = { version = "0.14", features = ["client", "http1", "tcp"] }
http = "0.2"
bytes = "1"
tower-service = "0.3"
