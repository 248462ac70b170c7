[package]
name = "pybun"
version = "0.1.0"
edition = "2021"
publish = false

[dependencies]
sha2 = "=0.10.9"
hex = "=0.4.3"
clap = { version = "=4.6.7", features = ["derive", "env"] }
serde_json = "=1.0.154"
reqwest = { version = "=0.12.28", default-features = false, features = ["rustls-tls", "stream"] }
tokio = { version = "=1.54.1", features = ["rt-multi-thread", "macros", "fs", "io-util", "time"] }
futures = "=0.3.34"
tempfile = "=3.27.0"
dirs = "=5.0.1"
thiserror = "=2.0.21"
dialoguer = "0.11"
