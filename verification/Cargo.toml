[package]
name = "retrotex"
version = "0.1.0"
edition = "2021"
publish = false

[dependencies]
rand = "=0.9.5"
twox-hash = "=2.1.5"
serde = { version = "=1.0.229", features = ["derive"] }
serde_json = "=1.0.154"
glam = "=0.30.10"
log = "=0.4.35"
png = "=0.18.1"
rayon = "=1.12.0"
strum = "=0.28.0"
strum_macros = "=0.28.0"
time = { version = "=0.3.55", features = ["macros", "formatting", "local-offset"] }
clap = { version = "=4.6.7", features = ["derive"] }
egui = "=0.37.0"
eframe = { version = "=0.37.0", default-features = false, features = ["default_fonts", "glow", "x11"] }
egui_extras = { version = "=0.37.0", default-features = false }
