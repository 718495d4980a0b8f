[package]
name = "checkplus"
version = "0.1.0"
edition = "2021"
publish = false

[dependencies]
clap = "4"
eframe = { version = "0.22", default-features = false, features = ["default_fonts", "glow"] }
egui = "0.22"
egui_extras = { version = "0.22", features = ["svg"] }
