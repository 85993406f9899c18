[package]
name = "geoip_filter"
version = "0.1.0"
edition = "2021"
publish = false

[dependencies]
lru = "0.16"
maxminddb = "0.27"
parking_lot = "0.12"
anyhow = "1"
async-trait = "0.1"
bytes = "1"
http-body-util = "0.1"
hyper = "1"
tokio = { version = "1", features = ["rt"] }
