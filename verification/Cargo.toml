[package]
name = "hkb_event_listener"
version = "0.1.0"
edition = "2021"
publish = false

[dependencies]
pelite = "=0.10.0"
retour = "=0.3.1"
serde = { version = "=1.0.229", features = ["derive"] }
serde_yaml = "=0.9.34"
windows = { version = "0.54", features = ["Win32_Foundation", "Win32_System_LibraryLoader"] }
eldenring-util = "=0.11.0"
