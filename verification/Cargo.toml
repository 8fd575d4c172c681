[package]
name = "wechat-ilink"
version = "0.4.0"
edition = "2021"
publish = false

[dependencies]
async-stream = "0.3"
base64 = "0.22"
futures-core = "0.3"
futures-util = "0.3"
hex = "0.4"
md-5 = "*"
rand = "*"
reqwest = { version = "0.12", default-features = false, features = ["json", "rustls-tls"] }
serde = { version = "1", features = ["derive"] }
serde_json = "1"
tokio = { version = "1", features = ["macros", "rt-multi-thread", "time", "sync"] }
tracing = "0.1"
urlencoding = "2"
uuid = { version = "1", features = ["v4"] }
