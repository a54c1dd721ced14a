[package]
name = "batch_consumer"
version = "0.1.0"
edition = "2021"
publish = false

[dependencies]
lapin = { version = "2", default-features = false }
tokio = { version = "1", features = ["macros", "rt-multi-thread", "time"] }
futures = "0.3"
log = "0.4"
env_logger = "0.11"
