[package]
name = "ky-sync"
version = "0.1.0"
edition = "2021"
publish = false

[dependencies]
anyhow = "1"
bytes = "1"
futures = "0.3"
log = "0.4"
reqwest = { version = "0.12", default-features = false, features = ["json"] }
serde = { version = "1", features = ["derive"] }
simple_logger = "*"
tokio = { version = "1", features = ["macros", "rt-multi-thread"] }
