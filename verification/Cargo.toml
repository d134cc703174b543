[package]
name = "sensor_hub"
version = "0.1.0"
edition = "2021"
publish = false

[dependencies]
uuid = { version = "1", features = ["v5"] }
crc = "3"
inventory = "0.3"
once_cell = "1"
