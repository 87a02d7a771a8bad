[package]
name = "wlist"
version = "0.1.0"
edition = "2021"
publish = false

[dependencies]
clap = { version = "4", features = ["derive"] }
colored = "2"
rand = "0.8"
serde_json = "1"
