[package]
name = "screenextend"
version = "0.1.0"
edition = "2021"
publish = false

[dependencies]
anyhow = "=1.0.104"
evdev = "=0.13.2"
gstreamer = "=0.23.7"
gstreamer-app = "=0.23.5"
gstreamer-sdp = "=0.23.5"
gstreamer-video = "=0.23.6"
gstreamer-webrtc = "=0.23.5"
gtk4 = "=0.9.7"
hostname = "=0.4.2"
if-addrs = "=0.15.0"
libadwaita = "=0.7.2"
mdns-sd = "=0.21.7"
rand = "=0.9.5"
serde = { version = "=1.0.229", features = ["derive"] }
serde_json = "=1.0.154"
tokio = { version = "=1.54.1", features = ["full"] }
tracing = "=0.1.44"
tracing-subscriber = { version = "=0.3.23", features = ["env-filter"] }
