[package]
name = "slm_aim"
version = "0.1.0"
edition = "2021"
publish = false

[dependencies]
base64 = "0.13"
flexi_logger = "*"
log = "0.4"
ndarray = "*"
ndarray-image = "*"
paho-mqtt = "*"
sdl2 = "*"
serde = { version = "1", features = ["derive"] }
serde_json = "1"
system_shutdown = "*"
walkdir = "2"
