[package]
name = "spear"
version = "0.1.0"
edition = "2021"
publish = false

[dependencies]
serde = { version = "1", features = ["derive"] }
serde_json = "1"
font-kit = "*"
async-channel = "*"
glib = "*"
gio = "*"
gdk4 = "*"
gtk4 = "*"
libadwaita = "*"
