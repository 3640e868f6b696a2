[package]
name = "chatscript"
version = "0.1.0"
edition = "2021"
publish = false

[dependencies]
anyhow = "1"
async-openai = "0.28"
data-encoding = "2"
flume = "0.11"
lru = "0.16"
mlua = { version = "0.11", features = ["luau", "async", "serialize", "send"] }
parking_lot = "0.12"
rand = "0.8"
reqwest = { version = "0.12", features = ["json"] }
rucomfyui = "1"
serde = { version = "1", features = ["derive"] }
serenity = "0.12"
tokio = { version = "1", features = ["full"] }
toml = "0.8"
