[package]
name = "project_mapper"
version = "0.1.0"
edition = "2021"
publish = false

[dependencies]
anyhow = "=1.0.104"
clap = { version = "=4.6.7", features = ["derive"] }
glib = "=0.20.12"
gstreamer = "=0.23.7"
gstreamer-app = "=0.23.5"
gstreamer-video = "=0.23.6"
serde = { version = "=1.0.229", features = ["derive"] }
serde_json = "=1.0.151"
winit = "=0.30.13"
