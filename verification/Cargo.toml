[package]
name = "mimick"
version = "0.1.0"
edition = "2021"
publish = false

[dependencies]
dirs = "5"
sha1 = "0.10"
serde = { version = "1", features = ["derive"] }
serde_json = "1"
log = "0.4"
tokio = { version = "1", features = ["full"] }
tokio-util = { version = "0.7", features = ["codec"] }
reqwest = { version = "0.12", default-features = false, features = ["json", "multipart", "stream", "rustls-tls"] }
notify = "6"
flexi_logger = "0.29"
gtk4 = "0.9"
libadwaita = "0.7"
glib = "0.20"
ksni = "0.3"
