[package]
name = "shell_explorer"
version = "0.1.0"
edition = "2021"
publish = false

[dependencies]
chrono = { version = "=0.4.45", default-features = false, features = ["std"] }
duckdb = "=1.3.2"
eframe = { version = "=0.31.1", default-features = false, features = ["default_fonts", "glow"] }
egui-winit = { version = "=0.31.1", default-features = false, features = ["x11"] }
egui_glow = { version = "=0.31.1", default-features = false, features = ["x11"] }
glutin = { version = "=0.32.3", default-features = false, features = ["glx", "x11"] }
glutin-winit = { version = "=0.5.0", default-features = false, features = ["glx", "x11"] }
rfd = "=0.15.4"
serde = { version = "=1.0.229", features = ["derive"] }
serde_json = "=1.0.154"
