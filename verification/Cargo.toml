[package]
name = "channel_bridge"
version = "0.1.0"
edition = "2021"
publish = false

[dependencies]
postcard = "*"
serde = "*"
atomic-waker = "*"
embassy-sync = "*"
embassy-futures = "*"
heapless = "*"
log = "*"
embedded-io-async = "*"
embedded-svc = "*"
edge-ws = "*"
