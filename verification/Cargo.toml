[package]
name = "framework_crate"
version = "0.1.0"
edition = "2021"
publish = false

[dependencies]
framework_lib = { version = "=0.6.6", default-features = false }
serde = { version = "=1.0.229", features = ["derive"] }
toml = "=1.1.8"
dirs = "=7.0.0"
tokio = { version = "=1.54.1", features = ["rt-multi-thread", "time", "sync", "macros"] }
parking_lot = "=0.12.5"
core_affinity = "=0.8.3"
