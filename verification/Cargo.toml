[package]
name = "open_ntrip_client"
version = "0.3.0"
edition = "2021"
publish = false

[dependencies]
rustls = { version = "=0.23.46", default-features = false, features = ["ring", "std", "tls12"] }
webpki-roots = "=1.0.10"
serde = { version = "=1.0.229", features = ["derive"] }
toml = "=1.1.8"
serialport = { version = "=4.10.1", default-features = false }
eframe = { version = "=0.37.0", default-features = false, features = ["default_fonts", "glow", "x11"] }
egui = "=0.37.0"
egui_extras = "=0.37.0"
egui_plot = "=0.38.0"
