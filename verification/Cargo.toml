[package]
name = "jbot"
version = "0.1.0"
edition = "2021"
publish = false

[dependencies]
bincode = "1"
bullet = "*"
chrono = "0.4"
futures = "0.1"
hyper = "0.12"
hyper-rustls = "0.17"
irc = "0.13"
log = "0.4"
markov = "*"
rand = "0.7"
serde = { version = "1", features = ["derive"] }
serde_json = "1"
tokio-core = "0.1"
tokio-signal = "0.2"
unicode-segmentation = "1"
url = "1.7"
