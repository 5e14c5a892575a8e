[package]
name = "lenscast"
version = "0.1.0"
edition = "2021"
publish = false

[dependencies]
rand = "0.9"
qrcode = { version = "0.14", default-features = false }
mdns-sd = "0.13"
flume = "0.11"
gtk4 = { version = "0.9", features = ["v4_12"] }
libadwaita = { version = "0.7", features = ["v1_4"] }
glib = "0.20"
gdk4 = "0.9"
ksni = "0.3"
tokio = { version = "1", features = ["rt-multi-thread"] }
async-channel = "2"
serde = { version = "1", features = ["derive"] }
serde_json = "1"
dirs = "6"
log = "0.4"
env_logger = "0.11"
