[package]
name = "ioreg_explorer"
version = "0.1.0"
edition = "2021"
publish = false

[dependencies]
idevice = { version = "=0.1.68", features = ["usbmuxd", "diagnostics_relay"] }
plist = "=1.10.1"
plist-macro = "=0.1.6"
tokio = { version = "=1.53.2", default-features = false, features = ["rt-multi-thread", "sync", "macros"] }
log = "=0.4.34"
eframe = { version = "=0.36.2", default-features = false, features = ["glow", "x11", "default_fonts"] }
egui = "=0.36.2"
egui_logger = "=0.12.0"
