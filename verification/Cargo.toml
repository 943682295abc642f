[package]
name = "liana_gui"
version = "0.1.0"
edition = "2021"
publish = false

[dependencies]
async-hwi = { version = "=0.0.32", default-features = false, features = ["regex"] }
hex = "=0.4.3"
serde = { version = "=1.0.229", features = ["derive"] }
toml = "=1.1.7"
dirs = "=7.0.0"
chrono = "=0.4.45"
tokio = { version = "=1.53.2", features = ["rt", "time", "sync", "macros"] }
