[package]
name = "usbsas_core"
version = "0.1.0"
edition = "2021"
publish = false

[dependencies]
uuid = { version = "1", features = ["v4"] }
actix-web = { version = "4", default-features = false, features = ["macros"] }
actix-files = "0.6"
clamav-rs = "*"
clap = "4"
env_logger = { version = "*", default-features = false }
futures = "0.3"
log = "0.4"
serde_json = "1"
tar = "0.4"
tempfile = "3"
reqwest = { version = "0.12", default-features = false, features = ["blocking"] }
byteorder = "1"
uname = "0.1"
