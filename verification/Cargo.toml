[package]
name = "query_core"
version = "0.1.0"
edition = "2021"
publish = false

[dependencies]
roaring = "0.10"
cron = "0.12"
chrono-tz = "0.8"
parquet2 = { version = "0.17", default-features = false }
ethnum = "1"
parking_lot = "0.12"
serde = { version = "1", features = ["derive"] }
serde_json = "1"
clap = "3"
comfy-table = "6"
http = "0.2"
reqwest = { version = "0.11", default-features = false, features = ["json", "multipart"] }
byte-unit = "4"
num-format = "0.4"
async-channel = "1"
async-trait = "0.1"
log = "0.4"
