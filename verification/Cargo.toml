[package]
name = "filesculptor"
version = "0.1.0"
edition = "2021"
publish = false

[dependencies]
regex = "*"
globset = "*"
anyhow = "*"
clap = { version = "*", features = ["derive"] }
serde = { version = "*", features = ["derive"] }
serde_json = "*"
log = "*"
simple_logger = "*"
mlua = { version = "*", features = ["lua54", "vendored"] }
tokio = { version = "*", features = ["full"] }
async-walkdir = "*"
futures-lite = "*"

[dev-dependencies]
