[package]
name = "agi_pic"
version = "0.1.0"
edition = "2021"
publish = false

[dependencies]
byteorder = "=1.5.0"
thiserror = "=1.0.69"
egui = "=0.20.1"
eframe = { version = "=0.20.1", default-features = false, features = ["default_fonts", "glow"] }
tracing-subscriber = "=0.3.23"
