[package]
name = "log_viewer"
version = "0.1.0"
edition = "2021"
publish = false

[dependencies]
serde_json = "1"
chrono = { version = "0.4", default-features = false, features = ["std"] }
log = "0.4"
fern = "0.6"
clap = { version = "4", features = ["derive"] }
egui = { version = "=0.26.2", default-features = false }
egui_extras = { version = "=0.26.2", default-features = false }
