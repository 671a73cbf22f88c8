[package]
name = "loxvm"
version = "0.1.0"
edition = "2021"
publish = false

[dependencies]
chrono = "0.4"
rustc-hash = "2"
clap = { version = "4", features = ["derive"] }
