[package]
name = "msixvc"
version = "0.1.0"
edition = "2021"
publish = false

[dependencies]
aes = "=0.9.4"
sha2 = "=0.11.1"
uuid = "=1.29.0"
chrono = { version = "=0.4.45", default-features = false }
tokio = { version = "=1.54.1", features = ["io-util"] }
futures-util = { version = "=0.3.34", default-features = false }
pin-project = "=1.1.13"
thiserror = "=2.0.21"
