[package]
name = "file-watcher"
version = "0.1.0"
edition = "2021"
publish = false

[dependencies]
anyhow = "1"
crossbeam-channel = "0.5"
directories = "*"
log = "0.4"
notify = "*"
serde = { version = "1", features = ["derive"] }
serde_json = "1"
tracing = "0.1"
tracing-appender = "0.2"
tracing-journald = "*"
tracing-subscriber = "0.3"
yaml_serde = "*"
