[package]
name = "tomasulo"
version = "0.1.0"
edition = "2021"

[dependencies]
anyhow = "=1.0.104"
eframe = { version = "=0.24.1", default-features = false, features = ["default_fonts", "glow", "persistence", "wayland"] }
egui = "=0.24.1"
egui_extras = "=0.24.2"
serde = { version = "=1.0.229", features = ["derive"] }
serde_json = "=1.0.154"
