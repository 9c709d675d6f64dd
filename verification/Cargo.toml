[package]
name = "livekit-portal"
version = "0.3.0"
edition = "2021"
publish = false

[dependencies]
async-trait = "0.1"
bytes = "=1.12.1"
ctor = "*"
env_logger = { version = "*", default-features = false, features = ["humantime"] }
futures-util = "0.3"
image = { version = "=0.25.10", default-features = false, features = ["jpeg", "png"] }
livekit = "=0.10.0"
log = "0.4"
parking_lot = "0.12"
serde = { version = "1", features = ["derive"] }
serde-saphyr = "=2.0.0"
serde_json = "1"
thiserror = "2"
tokio = { version = "1", features = ["rt", "rt-multi-thread", "sync", "time", "macros"] }
uniffi = { version = "*", default-features = false, features = ["tokio"] }
yuv-sys = "*"
