[package]
name = "paste_bridge"
version = "0.1.0"
edition = "2021"
publish = false

[dependencies]
sha2 = "0.10"
hex = "0.4"
serde = { version = "1", features = ["derive"] }
serde_json = "1"
rusqlite = { version = "*", features = ["bundled"] }
tiny_http = "0.12"
ureq = "2"
mdns-sd = "*"
chrono = "0.4"
if-addrs = "*"
arboard = "3"
image = { version = "*", default-features = false, features = ["png"] }
thiserror = "*"
