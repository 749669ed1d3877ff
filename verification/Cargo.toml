[package]
name = "aircore"
version = "0.1.0"
edition = "2021"
publish = false

[dependencies]
snow = "=0.9.6"
sha2 = "0.11"
uuid = "=1.29.0"
tokio = { version = "=1.54.1", features = ["rt", "rt-multi-thread", "time"] }
eframe = { version = "=0.29.1", default-features = false, features = ["default_fonts", "glow", "x11"] }
rfd = { version = "=0.15.4", default-features = false, features = ["xdg-portal", "tokio"] }
