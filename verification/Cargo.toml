[package]
name = "async_acme"
version = "0.1.0"
edition = "2021"
publish = false

[dependencies]
base64 = "=0.23.1"
futures-util = "=0.3.34"
generic-async-http-client = { version = "0.6", features = ["use_hyper"] }
httpdate = "=1.0.3"
log = "=0.4.35"
rcgen = { version = "=0.14.10", default-features = false, features = ["ring", "pem"] }
ring = "=0.17.14"
rustls = { version = "=0.23.46", default-features = false, features = ["ring", "std"] }
serde = { version = "=1.0.229", features = ["derive"] }
serde_json = "=1.0.154"
thiserror = "=2.0.21"
tokio = { version = "=1.54.1", features = ["time"] }
