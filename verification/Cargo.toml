[package]
name = "yaks"
version = "0.1.0"
edition = "2021"
publish = false

[dependencies]
serde_json = "=1.0.151"
flate2 = "=1.1.10"
rand = "=0.10.3"
htmd = "=0.5.5"
reqwest = { version = "=0.13.5", default-features = false }
tokio = { version = "=1.53.2", features = ["rt-multi-thread", "macros", "fs", "io-util", "time", "sync"] }
async-channel = "=2.5.0"
clap = { version = "=4.6.7", features = ["derive"] }
dirs-next = "=2.0.0"
toml = "=1.1.6"
serde = { version = "=1.0.229", features = ["derive"] }
anyhow = "=1.0.104"
