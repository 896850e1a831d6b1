[package]
name = "openai_utils"
version = "0.1.0"
edition = "2021"
publish = false

[dependencies]
anyhow = "1"
futures-util = "0.3"
lazy_static = "1"
log = "0.4"
reqwest = { version = "0.11", features = ["json"] }
reqwest-eventsource = "0.4"
schemars = "0.8"
serde = { version = "1", features = ["derive"] }
serde_json = "1"
thiserror = "1"
tokio = { version = "1", features = ["rt", "sync", "macros"] }
