[package]
name = "embassy_core"
version = "0.1.0"
edition = "2021"
publish = false

[dependencies]
embassy-time-driver = "=0.2.2"
portable-atomic = "=1.15.0"
proc-macro2 = "=1.0.107"
quote = "=1.0.47"
syn = { version = "=2.0.119", features = ["full"] }
darling = "=0.20.11"
