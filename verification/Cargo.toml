[package]
name = "uwheel"
version = "0.1.0"
edition = "2021"
publish = false

[dependencies]
clap = { version = "4", features = ["derive"] }
rkyv = { version = "0.7", features = ["validation"] }
serde = { version = "1", features = ["derive"] }
time = { version = "0.3" }
