[package]
name = "vcs"
version = "0.1.0"
edition = "2021"
publish = false

[dependencies]
array_tool = "1"
chrono = { version = "0.4", features = ["serde"] }
clap = { version = "4", features = ["derive"] }
path-absolutize = "3"
serde = { version = "1", features = ["derive"] }
serde_json = "1"
