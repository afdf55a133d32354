[package]
name = "miq"
version = "0.1.0"
edition = "2021"
publish = false

[dependencies]
eframe = { version = "0.37", default-features = false, features = ["glow", "x11", "default_fonts"] }
egui_extras = { version = "0.37", default-features = false }
midir = "0.11"
ron = "0.12"
serde = { version = "1", features = ["derive"] }
rfd = { version = "0.17", default-features = false, features = ["gtk3"] }
pollster = "1"
log = "0.4"
env_logger = { version = "0.11", default-features = false }
take_mut = "0.2"
chrono = { version = "0.4", default-features = false, features = ["serde", "clock"] }
