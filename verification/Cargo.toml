[package]
name = "tacho_bridge"
version = "0.1.0"
edition = "2021"
publish = false

[dependencies]
hex = "0.4"
serde = { version = "1", features = ["derive"] }
serde_json = "1"
serde_yaml = "0.9"
rumqttc = "0.24"
tokio = { version = "1", features = ["rt-multi-thread", "time", "macros", "sync"] }
pcsc = "2"
