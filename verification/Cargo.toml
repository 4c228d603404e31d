[package]
name = "kitsupin"
version = "0.1.5"
edition = "2021"
publish = false

[dependencies]
anyhow = "=1.0.104"
arboard = { version = "=3.7.0", features = ["wayland-data-control"] }
base64 = "=0.22.1"
chrono = "=0.4.45"
directories = "=6.0.0"
fs2 = "=0.4.3"
hex = "=0.4.3"
image = { version = "=0.25.10", default-features = false, features = ["png", "jpeg", "webp"] }
log = "=0.4.35"
parking_lot = "=0.12.5"
png = "=0.17.16"
regex = "=1.13.1"
rusqlite = { version = "=0.37.0", features = ["backup", "bundled", "functions"] }
serde = { version = "=1.0.229", features = ["derive"] }
serde_json = "=1.0.154"
sha2 = "=0.10.9"
url = "=2.5.8"
uuid = { version = "=1.29.0", features = ["v4", "serde"] }
x11rb = { version = "=0.13.2", features = ["xfixes"] }

[dev-dependencies]
tempfile = "=3.27.0"
