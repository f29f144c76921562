[package]
name = "key_capture"
version = "0.1.0"
edition = "2021"
publish = false

[dependencies]
futures-util = { version = "0.3", default-features = false, features = ["std"] }
log = "0.4"
serde = "1"
serde_json = "1"
tokio = { version = "1", features = ["macros", "rt", "time"] }
zbus = { version = "5", default-features = false, features = ["tokio"] }
