[package]
name = "nsq_client"
version = "0.1.0"
edition = "2021"
publish = false

[dependencies]
serde_json = "=1.0.151"
hostname = "=0.4.2"
tokio = { version = "=1.53.2", features = ["net", "rt", "io-util", "time", "macros"] }
futures = "=0.3.34"
async-compression = { version = "=0.4.50", features = ["tokio", "deflate"] }
snap = "=1.1.2"
reqwest = { version = "=0.13.5", default-features = false, features = ["query"] }
