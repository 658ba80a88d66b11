[package]
name = "arb"
version = "0.1.0"
edition = "2021"
publish = false

[dependencies]
rusb = { version = "0.9", features = ["vendored"] }
clap = { version = "4", features = ["derive"] }
thiserror = "1"
