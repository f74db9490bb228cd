[package]
name = "mqtt_relay"
version = "0.1.0"
edition = "2021"
publish = false

[dependencies]
bytes = "*"
colog = "*"
jq-rs = "*"
log = "*"
notify = "*"
rumqttc = "*"
serde = { version = "*", features = ["derive"] }
serde_yml = "*"
tokio = { version = "*", features = ["full"] }
yaml-rust2 = "*"
