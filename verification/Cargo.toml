[package]
name = "whip_relay"
version = "0.1.0"
edition = "2021"
publish = false

[dependencies]
uuid = { version = "=1.29.0", features = ["v4"] }
actix-web = "=4.18.1"
actix-cors = "=0.7.2"
actix-files = "=0.6.10"
actix-session = "=0.11.0"
actix-web-httpauth = "=0.8.3"
argh = "=0.1.19"
thiserror = "=2.0.21"
tokio = { version = "=1.54.1", features = ["net", "sync", "time", "macros", "rt-multi-thread"] }
webrtc = "0.14"
