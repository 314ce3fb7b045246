[package]
name = "tsw_controller"
version = "0.1.0"
edition = "2021"
publish = false

[dependencies]
clap = { version = "=4.6.7", features = ["derive"] }
eframe = { version = "=0.29.1", default-features = false, features = ["glow"] }
env_logger = "=0.11.11"
futures-util = "=0.3.34"
mlua = { version = "=0.10.5", features = ["lua54", "send", "vendored"] }
once_cell = "=1.21.4"
sdl2 = "=0.37.0"
serde = { version = "=1.0.229", features = ["derive"] }
serde_json = "=1.0.154"
tokio = { version = "=1.54.1", features = ["full"] }
tokio-tungstenite = "=0.26.2"
tokio-util = "=0.7.20"
tungstenite = "=0.26.2"
