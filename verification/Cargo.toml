[package]
name = "foto_acte"
version = "0.1.0"
edition = "2021"
publish = false

[dependencies]
image = { version = "=0.25.10", default-features = false, features = ["png", "jpeg", "webp", "bmp"] }
jpeg-encoder = "=0.6.1"
eframe = { version = "=0.32.3", default-features = false, features = ["default_fonts", "glow", "x11"] }
rfd = { version = "=0.16.1", default-features = false, features = ["xdg-portal", "tokio"] }
rten = "=0.27.0"
