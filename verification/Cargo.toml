[package]
name = "netmuxd"
version = "0.1.0"
edition = "2021"
publish = false

[dependencies]
log = "0.4"
mdns-sd = "*"
tokio = { version = "1", features = ["macros", "rt", "sync", "time"] }
