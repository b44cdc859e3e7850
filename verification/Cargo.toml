[package]
name = "libairspy-rs"
version = "0.2.1"
edition = "2021"
publish = false

[dependencies]
rusb = "=0.9.4"
clap = { version = "=4.6.7", features = ["derive"] }
chrono = "=0.4.45"
ctrlc = "=3.5.2"
thiserror = "=2.0.21"
tokio = { version = "=1.54.1", features = ["sync"] }
futures-core = "=0.3.34"
async-channel = "=2.5.0"
tracing = "=0.1.44"
