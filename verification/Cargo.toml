[package]
name = "argon"
version = "0.1.0"
edition = "2021"
publish = false

[dependencies]
path-clean = "1"
serde = { version = "1", features = ["derive"] }
serde_json = "1"
clap = { version = "4", features = ["derive"] }
clap-verbosity-flag = "2"
anyhow = "1"
log = "0.4"
env_logger = "0.11"
chrono = "0.4"
colored = "2"
crossbeam-channel = "0.5"
rbx_dom_weak = "2"
