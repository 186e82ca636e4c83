[package]
name = "vidtoss"
version = "0.1.0"
edition = "2021"
publish = false

[dependencies]
image = { version = "0.25", default-features = false, features = ["gif", "png"] }
clap = { version = "4", features = ["derive"] }
rand = "0.9"
tracing = "0.1"
tracing-subscriber = "0.3"
