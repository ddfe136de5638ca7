[package]
name = "bluster"
version = "0.1.0"
edition = "2021"
publish = false

[dependencies]
async-trait = "0.1"
dbus = "0.9"
tokio = { version = "1", features = ["rt", "rt-multi-thread", "sync", "macros"] }
uuid = "1"
