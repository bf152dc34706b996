[package]
name = "sequencer"
version = "0.1.0"
edition = "2021"
publish = false

[dependencies]
anyhow = "1.0"
async-std = "1.12"
async-trait = "0.1"
clap = { version = "4.4", features = ["derive"] }
derivative = "2.2"
ethers = { version = "2.0", default-features = false }
futures = "0.3"
serde = { version = "1.0", features = ["derive"] }
snafu = "0.8"
tracing = "0.1"
url = "2.5"
vbs = "0.1"
