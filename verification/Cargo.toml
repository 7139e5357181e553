[package]
name = "python_supervisor"
version = "0.1.0"
edition = "2021"
publish = false

[dependencies]
lazy_static = "1"
log = "0.4"
serde = { version = "1", features = ["derive"] }
