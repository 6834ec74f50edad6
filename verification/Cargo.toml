[package]
name = "scape"
version = "0.1.0"
edition = "2021"
publish = false

[dependencies]
xcursor = "*"
smithay = { version = "*", default-features = false }
anyhow = "1"
tracing = "0.1"
tracing-subscriber = { version = "0.3", features = ["env-filter"] }
calloop = "*"
notify = "*"
thiserror = "*"
bitflags = "2"
