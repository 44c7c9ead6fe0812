[package]
name = "pathmaster"
version = "0.2.2"
edition = "2021"
publish = false

[dependencies]
chrono = "=0.4.45"
clap = { version = "=4.6.7", features = ["derive"] }
dirs-next = "=2.0.0"
serde = { version = "=1.0.229", features = ["derive"] }
serde_json = "=1.0.154"
shellexpand = "=3.1.2"

[dev-dependencies]
regex = "1"
tempfile = "=3.27.0"
