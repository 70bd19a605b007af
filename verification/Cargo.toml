[package]
name = "js_worker"
version = "0.1.0"
edition = "2021"
publish = false

[dependencies]
rustyscript = "*"
serde = { version = "*", features = ["derive"] }
serde_json = "*"
async-trait = "*"
thiserror = "*"
tokio = { version = "*", features = ["rt", "sync", "time", "macros"] }
