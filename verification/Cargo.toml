[package]
name = "pixel_sorter"
version = "0.1.0"
edition = "2021"
publish = false

[dependencies]
rayon = "=1.12.0"
image = { version = "=0.24.9", default-features = false, features = ["png", "jpeg"] }
egui = { version = "=0.27.2", default-features = false }
eframe = { version = "=0.27.2", default-features = false, features = ["glow"] }
rfd = { version = "0.14", default-features = false, features = ["xdg-portal", "async-std"] }
rand = "=0.8.8"
