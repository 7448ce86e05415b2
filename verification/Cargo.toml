[package]
name = "datafall"
version = "0.1.0"
edition = "2021"
publish = false

[dependencies]
reqwest = { version = "0.12", default-features = false }
base64 = "0.22"
chrono = "0.4"
dirs = "5"
fs_extra = "1"
tokio = { version = "1", features = ["full"] }
relm4 = { version = "*", features = ["libadwaita"] }
relm4-icons = "*"
