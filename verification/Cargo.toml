[package]
name = "rummy"
version = "0.1.0"
edition = "2021"
publish = false

[dependencies]
async-trait = "*"
chrono = "*"
crc32fast = "*"
log = "*"
rand = "*"
tokio = { version = "*", features = ["rt-multi-thread", "net", "sync", "io-util", "time"] }
uuid = { version = "*", features = ["v4"] }
