[package]
name = "sdag"
version = "0.1.0"
edition = "2021"
publish = false

[dependencies]
regex = "1"
uuid = { version = "1", features = ["v4"] }
serde = { version = "1", features = ["derive"] }
serde_json = "1"
log = "0.4"
env_logger = "*"
chrono = "0.4"
tabled = "*"
ctrlc = "3"
text_io = "0.1"
graphs-tui = "*"
pyo3 = "*"
