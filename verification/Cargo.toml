[package]
name = "chat_bridge"
version = "0.1.0"
edition = "2021"
publish = false

[dependencies]
anyhow = "1"
async-compat = "0.2"
azalea = "0.6"
bevy_tasks = "0.10"
dotenv = "0.15"
futures-lite = "1"
log = "0.4"
parking_lot = { version = "0.12", features = ["deadlock_detection"] }
tokio = { version = "1", features = ["rt-multi-thread", "macros", "sync", "time"] }
twilight-cache-inmemory = "0.15"
twilight-gateway = "0.15"
twilight-http = "0.15"
twilight-model = "0.15"
