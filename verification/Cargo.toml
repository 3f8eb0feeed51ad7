[package]
name = "minijudge"
version = "0.1.0"
edition = "2021"
publish = false

[dependencies]
clap = { version = "=4.6.7", features = ["derive"] }
serde = { version = "=1.0.229", features = ["derive"] }
serde_yaml = "=0.9.34"
log = "=0.4.34"
fern = "=0.7.1"
chrono = "=0.4.45"
zmq = "=0.10.0"
