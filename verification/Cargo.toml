[package]
name = "matrix_request"
version = "0.1.0"
edition = "2021"
publish = false

[dependencies]
hyper = "1"
percent-encoding = "1"
serde = "1"
serde_json = "1"
futures = "0.3"
