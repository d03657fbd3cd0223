[package]
name = "wpm"
version = "0.1.0"
edition = "2021"
publish = false

[dependencies]
rand = "0.8"
egui = "0.20"
eframe = { version = "0.20", default-features = false, features = ["default_fonts", "glow"] }
