[package]
name = "engine_battle"
version = "0.1.0"
edition = "2021"
publish = false

[dependencies]
shakmaty = "=0.29.4"
tokio = { version = "1", features = ["full"] }
clap = { version = "4", features = ["derive"] }
serde = { version = "1", features = ["derive"] }
color-eyre = "*"
tracing = "*"
tracing-error = "*"
tracing-subscriber = { version = "*", features = ["env-filter"] }
