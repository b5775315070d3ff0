[package]
name = "remoterc"
version = "0.1.0"
edition = "2021"
publish = false

[dependencies]
cargo_toml = "0.14"
dirs = "4"
flate2 = "1"
futures-channel = "0.3"
futures-util = "0.3"
jwalk = "0.6"
regex = "1"
tar = "0.4"
tokio = { version = "1", features = ["full"] }
tokio-tungstenite = "0.17"
tracing = "0.1"
tracing-subscriber = "0.3"
url = "2"
