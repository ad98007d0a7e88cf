[package]
name = "aurelia"
version = "0.1.0"
edition = "2021"
publish = false

[dependencies]
chrono = "=0.4.45"
discord-rich-presence = "*"
md5 = "=0.7.0"
postcard = { version = "=1.1.3", features = ["use-std"] }
rand = "=0.9.5"
redb = "=3.1.3"
reqwest = { version = "0.12", default-features = false, features = ["json"] }
serde = { version = "=1.0.229", features = ["derive"] }
serde_json = "=1.0.154"
tokio = { version = "1", features = ["rt-multi-thread", "macros"] }
urlencoding = "=2.1.3"
uuid = { version = "1", features = ["v4"] }
