[package]
name = "rust_clock"
version = "0.1.5"
edition = "2021"
publish = false

[dependencies]
egui = { version = "=0.22.0", default-features = false }
chrono = "=0.4.45"
eframe = { version = "=0.22.0", default-features = false, features = ["glow", "default_fonts"] }
rust-ini = "=0.19.0"
image = { version = "=0.24.9", default-features = false, features = ["png"] }
tray-icon = "0.5"
