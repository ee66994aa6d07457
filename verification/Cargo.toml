[package]
name = "svgtextbox"
version = "0.1.0"
edition = "2021"
publish = false

[dependencies]
base64 = "0.13"
cairo-rs = { version = "*", features = ["svg"] }
glib = "*"
lazy_static = "1"
libxml = "*"
libxslt = "*"
pango = "*"
pangocairo = "*"
regex = "1"
serde = { version = "1", features = ["derive"] }
serde_json = "1"
xml-rs = "0.8"
