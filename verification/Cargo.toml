[package]
name = "battery_ha_bridge"
version = "0.1.0"
edition = "2021"
publish = false

[dependencies]
clap = { version = "4", features = ["derive", "env"] }
env_logger = "0.11"
log = "0.4"
rumqttc = { version = "*", default-features = false }
serde_json = { version = "1", features = ["float_roundtrip"] }
tokio = { version = "1", features = ["rt-multi-thread", "macros", "sync", "time"] }
