[package]
name = "cord_ripper"
version = "0.1.0"
edition = "2021"
publish = false

[dependencies]
clap = { version = "4", features = ["derive"] }
fs_extra = "1"
lazy_static = "1"
serenity = { version = "0.12", default-features = false, features = ["builder", "cache", "client", "collector", "gateway", "http", "model", "rustls_backend"] }
tempfile = "3"
thiserror = "1"
tokio = { version = "1", features = ["full"] }
