[package]
name = "war_thunder_camo_installer"
version = "0.1.0"
edition = "2021"
publish = false

[dependencies]
dirs = "5"
eframe = { version = "0.22", default-features = false, features = ["default_fonts", "glow"] }
egui = "0.22"
image = { version = "0.24", default-features = false, features = ["png", "jpeg"] }
rayon = "1"
reqwest = { version = "0.11", features = ["blocking"] }
rusqlite = { version = "0.29", features = ["bundled"] }
serde = { version = "1", features = ["derive"] }
serde_json = "1"
thiserror = "1"
zip = { version = "0.6", default-features = false, features = ["deflate"] }
