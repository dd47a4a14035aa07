[package]
name = "ntp_timeturner"
version = "0.1.0"
edition = "2021"
publish = false

[dependencies]
chrono = "0.4"
actix-web = "4"
actix-files = "0.6"
clap = { version = "4", features = ["derive"] }
crossterm = "*"
get_if_addrs = "0.5"
log = "0.4"
notify = "*"
serde = { version = "1", features = ["derive"] }
serde_json = "1"
serde_yaml = "0.9"
serialport = { version = "4", default-features = false }
systemd-journal-logger = "*"
tokio = { version = "1", features = ["rt", "macros", "time"] }
