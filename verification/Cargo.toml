[package]
name = "oas-rs"
version = "0.1.0"
edition = "2021"
publish = false

[dependencies]
bytes = "1"
futures-core = "0.3"
http = "1"
http-body = "1"
http-body-util = "0.1"
hyper = { version = "1", features = ["http1", "server"] }
hyper-util = { version = "0.1", features = ["tokio"] }
proc-macro2 = "1"
quote = "1"
serde = { version = "1", features = ["derive"] }
serde_json = "1"
syn = { version = "2", features = ["full"] }
tokio = { version = "1", features = ["io-util", "macros", "net", "rt-multi-thread", "sync", "time"] }
tokio-postgres = "0.7"
uuid = { version = "1", features = ["serde"] }
