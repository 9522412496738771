[package]
name = "hxckr_core"
version = "0.1.0"
edition = "2021"
publish = false

[dependencies]
serde_json = "1"
rand = "0.8"
serde = { version = "1", features = ["derive"] }
actix-web = "4"
actix-ws = "0.3"
tokio = { version = "1", features = ["macros", "rt-multi-thread", "sync", "time"] }
futures-util = "0.3"
lapin = "2"
uuid = { version = "1", features = ["v4"] }
chrono = "0.4"
