[package]
name = "mailviewer"
version = "1.0.0"
edition = "2021"
publish = false

[dependencies]
base64 = "=0.23.1"
hex = "=0.4.3"
html5ever = "=0.25.2"
msg_parser = "=0.3.6"
nipper = "=0.1.9"
uuid = { version = "=1.29.0", features = ["v4"] }
gmime = "=0.8.1"
gio = "=0.22.10"
gtk4 = { version = "=0.11.5", features = ["v4_10"] }
libadwaita = { version = "=0.9.2", features = ["v1_6"] }
webkit6 = "=0.6.1"
gettext-rs = "=0.8.0"
open = "=5.4.5"
log = "=0.4.34"
env_logger = "=0.11.11"
lazy_static = "=1.5.1"
ctor = "=1.0.13"
futures-util = "=0.3.34"
