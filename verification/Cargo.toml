[package]
name = "kakuin-rustls"
version = "0.1.0"
edition = "2021"
publish = false

[dependencies]
rustls = { version = "0.23", default-features = false, features = ["std", "tls12", "logging", "ring"] }
x509-cert = "0.2"
thiserror = "2"
tracing = "0.1"
