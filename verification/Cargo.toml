[package]
name = "zadt"
version = "0.1.0"
edition = "2021"
publish = false

[dependencies]
url = "2"
http = "1"
httparse = "1"
cookie = "0.18"
quick-xml = "0.37"
uuid = { version = "1", features = ["v4"] }
serde = { version = "1", features = ["derive"] }
serde-xml-rs = "0.8"
reqwest = { version = "0.12", default-features = false }
tokio = { version = "1", features = ["macros", "rt-multi-thread", "time"] }
async-trait = "0.1"
async-lock = "3"
futures-util = "0.3"
parking_lot = "0.12"
secrecy = "0.10"
tracing = "0.1"
tracing-subscriber = { version = "0.3", features = ["env-filter", "fmt"] }
thiserror = "2"
dotenvy = "0.15"
