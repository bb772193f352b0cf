[package]
name = "rlldpctl"
version = "1.1.0"
edition = "2021"
publish = false

[dependencies]
thiserror = "2"
tokio = { version = "1", default-features = false, features = ["net", "io-util"] }
