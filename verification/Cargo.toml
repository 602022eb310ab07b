[package]
name = "citnames"
version = "0.1.0"
edition = "2021"
publish = false

[dependencies]
anyhow = "1"
clap = { version = "4", features = ["cargo"] }
crossbeam-channel = "0.5"
json_compilation_db = "*"
log = "0.4"
num_cpus = "1"
path-absolutize = "3"
serde = { version = "1", features = ["derive"] }
serde_json = "1"
simple_logger = "*"
thiserror = "1"
