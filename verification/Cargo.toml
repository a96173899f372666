[package]
name = "zuul"
version = "0.1.0"
edition = "2021"
publish = false

[dependencies]
async-stream = "0.3"
chrono = "0.4"
clap = "2"
env_logger = "0.10"
futures-core = "0.3"
futures-util = "0.3"
log = "0.4"
reqwest = { version = "0.11", features = ["json"] }
serde = { version = "1", features = ["derive"] }
serde_json = "1"
tokio = { version = "1", features = ["macros", "rt-multi-thread", "time"] }
tokio-retry = "0.3"
url = "2"
