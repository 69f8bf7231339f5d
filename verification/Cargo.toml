[package]
name = "rustle"
version = "0.1.0"
edition = "2021"
publish = false

[dependencies]
tokio = { version = "1", features = ["sync"] }
tui = { version = "0.19", default-features = false }
