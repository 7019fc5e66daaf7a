[package]
name = "gopher"
version = "0.1.0"
edition = "2021"
publish = false

[dependencies]
bytes = "0.4"
url = "1.7"
tokio = "0.1"
futures = "0.1"
log = "0.4"
env_logger = "0.6"
gio = "0.9"
gtk = { version = "0.9", features = ["v3_16"] }
relm = "0.21"
relm-derive = "0.21"
