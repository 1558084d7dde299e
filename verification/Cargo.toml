[package]
name = "cosplay"
version = "0.1.0"
edition = "2021"
publish = false

[dependencies]
bytes = "1"
i24 = "*"
tokio-util = { version = "0.7", features = ["codec"] }
thiserror = "2"
rustix = { version = "1", features = ["fs", "mm"] }
