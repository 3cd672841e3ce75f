[package]
name = "pipewriter"
version = "0.1.0"
edition = "2021"
publish = false

[dependencies]
syn = { version = "1.0", features = ["full"] }
