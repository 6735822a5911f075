[package]
name = "arc_core"
version = "0.1.0"
edition = "2021"
publish = false

[dependencies]
rust-ini = "=0.21.3"
percent-encoding = "=2.3.2"
xmltree = { version = "=0.12.0", features = ["attribute-sorted"] }
uuid = { version = "=1.29.0", features = ["v4"] }
serde = { version = "=1.0.229", features = ["derive"] }
serde_json = "=1.0.154"
tokio = { version = "=1.54.1", features = ["sync", "rt", "rt-multi-thread", "macros", "time"] }
tokio-util = "=0.7.20"
appstream = "=0.2.2"
flate2 = "=1.1.10"
