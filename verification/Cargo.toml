[package]
name = "scandir"
version = "0.1.0"
edition = "2021"
publish = false

[dependencies]
glob-sl = "*"
jwalk-meta = "*"
flume = "0.11"
parking_lot = "0.12"
expanduser = "1"
speedy = "0.8"
bincode = { version = "2", features = ["serde"] }
serde_json = "1"
serde = { version = "1", features = ["derive"] }
serde_derive = "1"
