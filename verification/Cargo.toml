[package]
name = "pixgine"
version = "0.1.0"
edition = "2021"
publish = false

[dependencies]
anyhow = "=1.0.104"
bevy_ecs = "=0.15.4"
env_logger = "=0.11.11"
glam = "=0.29.3"
image = { version = "=0.25.10", default-features = false, features = ["png", "jpeg", "gif", "bmp"] }
log = "=0.4.35"
notify = "=6.1.1"
rand = "=0.8.8"
serde = { version = "=1.0.229", features = ["derive"] }
serde_json = "=1.0.154"
winit = "=0.30.13"
