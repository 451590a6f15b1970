[package]
name = "list_submit"
version = "0.1.0"
edition = "2021"
publish = false

[dependencies]
chrono = "0.4"
clap = { version = "4", features = ["derive"] }
color-eyre = "0.6"
colored = "2"
eyre = "0.6"
inquire = "0.7"
itertools = "0.13"
log = "0.4"
pathdiff = "0.2"
reqwest = { version = "0.12", default-features = false, features = ["blocking", "multipart", "cookies", "json", "rustls-tls"] }
scraper = "*"
self_update = "*"
serde = { version = "1", features = ["derive"] }
spinners = "4"
thiserror = "1"
toml_edit = { version = "0.22", features = ["serde"] }
walkdir = "2"
zip = { version = "*", default-features = false }
