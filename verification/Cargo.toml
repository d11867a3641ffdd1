[package]
name = "swim_gossip"
version = "0.1.0"
edition = "2021"
publish = false

[dependencies]
rand = "0.8"
tokio = { version = "1", default-features = false, features = ["rt-multi-thread", "macros", "time", "net", "sync"] }
futures = "0.3"
prost = "0.12"
thiserror = "1"
tracing = "0.1"
tracing-subscriber = "0.3"
