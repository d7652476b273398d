[package]
name = "chess_pgn"
version = "0.1.0"
edition = "2021"
publish = false

[dependencies]
eframe = { version = "0.22", default-features = false, features = ["glow", "default_fonts"] }
egui = "0.22"
egui_extras = { version = "0.22", features = ["svg"] }
lazy_static = "1"
minifb = "0.24"
png = "0.17"
raqote = { version = "0.8", default-features = false }

[dev-dependencies]
regex = "1"
