[package]
name = "minimalmark"
version = "0.1.0"
edition = "2021"
publish = false

[dependencies]
pulldown-cmark = { version = "0.12", default-features = false, features = ["html"] }
serde = { version = "1", features = ["derive"] }
serde_json = "1"
gtk4 = "0.9"
libadwaita = "0.7"
sourceview5 = "0.9"
glib = "0.20"
gio = "0.20"
webkit2gtk = "2"
fontconfig = "*"
