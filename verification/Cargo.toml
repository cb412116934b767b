[package]
name = "pyielink"
version = "0.7.0"
edition = "2021"
publish = false

[dependencies]
aes-gcm = "=0.10.3"
anyhow = "=1.0.104"
eframe = { version = "=0.29.1", default-features = false, features = ["default_fonts", "glow", "x11"] }
openh264 = "0.5"
rand = "=0.8.8"
rusty-opus = "=1.0.2"
serde = { version = "=1.0.229", features = ["derive"] }
serde_json = "=1.0.154"
sha2 = "=0.11.1"
tungstenite = "=0.24.0"
walkdir = "=2.5.0"
