[package]
name = "sync_endpoint"
version = "0.1.0"
edition = "2021"
publish = false

[dependencies]
tokio = { version = "1", features = ["macros", "rt-multi-thread", "sync", "time", "net"] }
axum = { version = "0.7", default-features = false, features = ["tokio", "http1"] }
thiserror = "1"
reqwest = { version = "0.12", default-features = false }
