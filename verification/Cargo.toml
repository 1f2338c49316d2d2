[package]
name = "self_recorder_decoder"
version = "0.1.0"
edition = "2021"
publish = false

[dependencies]
memmap = "=0.7.0"
rayon = "=1.12.0"
serde = { version = "=1.0.229", features = ["derive"] }
serde_json = "=1.0.151"
structopt = "=0.3.26"
