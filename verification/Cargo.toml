[package]
name = "symbol_lookup"
version = "0.1.0"
edition = "2021"
publish = false

[dependencies]
dirs = "5"
futures = "0.3"
reqwest = { version = "0.12", default-features = false, features = ["rustls-tls"] }
tokio = { version = "1", features = ["rt"] }
url = "2"
