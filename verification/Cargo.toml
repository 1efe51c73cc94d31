[package]
name = "postwoman"
version = "0.1.0"
edition = "2021"
publish = false

[dependencies]
reqwest = { version = "0.12", default-features = false, features = ["blocking", "rustls-tls"] }
serde = { version = "1", features = ["derive"] }
serde_json = "1"
egui = { version = "0.37", default-features = false, features = ["default_fonts"] }
eframe = { version = "0.37", default-features = false, features = ["glow", "x11", "default_fonts"] }
