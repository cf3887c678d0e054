[package]
name = "blazebee"
version = "0.1.0"
edition = "2021"
publish = false

[dependencies]
async-trait = "0.1"
erased-serde = "0.4"
inventory = "0.3"
libc = "0.2"
once_cell = "1"
serde = { version = "1", features = ["derive"] }
thiserror = "2"
time = { version = "0.3", features = ["formatting"] }
tokio = { version = "1", features = ["full"] }
toml = "0.8"
tracing = "0.1"
tracing-journald = "0.3"
tracing-subscriber = { version = "0.3", features = ["env-filter", "json"] }
validator = { version = "0.20", features = ["derive"] }
console = "0.15"
