[package]
name = "fuse_query"
version = "0.1.0"
edition = "2021"
publish = false

[dependencies]
async-backtrace = "*"
async-trait = "0.1"
futures = "0.3"
log = "0.4"
msql-srv = "*"
tokio = { version = "1", features = ["net", "rt", "rt-multi-thread", "sync", "time"] }
tokio-stream = { version = "0.1", features = ["net"] }
uuid = { version = "*", features = ["v4"] }
