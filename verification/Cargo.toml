[package]
name = "rippa"
version = "0.1.0"
edition = "2021"
publish = false

[dependencies]
anyhow = "1"
askama = "0.14"
axum = "0.8"
chrono = { version = "0.4", default-features = false, features = ["std", "clock"] }
flate2 = "1"
flexi_logger = "0.29"
log = "0.4"
thiserror = "2"
tokio = { version = "1", features = ["full"] }
zerocopy = { version = "0.8", features = ["derive"] }
