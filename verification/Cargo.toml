[package]
name = "task_tracker"
version = "0.1.0"
edition = "2021"
publish = false

[dependencies]
chrono = { version = "0.4", features = ["serde"] }
eframe = { version = "0.22", default-features = false, features = ["glow", "default_fonts"] }
serde = { version = "1", features = ["derive"] }
serde_json = "1"
