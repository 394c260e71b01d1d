[package]
name = "kawaii_cache"
version = "0.1.0"
edition = "2021"
publish = false

[dependencies]
aniscraper = "*"
axum = "*"
serde = { version = "*", features = ["derive"] }
serde_json = "*"
thiserror = "*"
tokio = { version = "*", features = ["macros", "rt-multi-thread", "sync"] }
