[package]
name = "nitori"
version = "0.1.0"
edition = "2021"
publish = false

[dependencies]
twox-hash = "=2.1.5"
futures = "0.3"
dotenv = "=0.15.0"
egg-mode = "=0.16.1"
twitter-stream = "=0.13.0"
tokio = { version = "1", features = ["rt", "time"] }
serde_json = "1"
