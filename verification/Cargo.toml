[package]
name = "terracotta"
version = "0.1.0"
edition = "2021"
publish = false

[dependencies]
axum = { version = "=0.7.9", features = ["ws"] }
chrono = { version = "=0.4.45", features = ["serde"] }
flume = "=0.11.1"
indexmap = { version = "=2.14.2", features = ["serde"] }
parking_lot = "=0.12.5"
serde = { version = "1", features = ["derive"] }
serde_json = "1"
tikv-jemalloc-ctl = { version = "=0.7.0", features = ["stats"] }
tikv-jemallocator = "=0.7.0"
tokio = { version = "=1.53.2", features = ["macros", "net", "rt-multi-thread", "sync", "time"] }
