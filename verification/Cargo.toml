[package]
name = "lights_sengled"
version = "0.1.0"
edition = "2021"
publish = false

[dependencies]
surf = "2"
paho-mqtt = "*"
smol = "*"
thiserror = "1"

[dev-dependencies]
serde_json = "1"
