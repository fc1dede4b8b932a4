[package]
name = "anotherps4"
version = "0.1.0"
edition = "2021"
publish = false

[dependencies]
anyhow = "1"
clap = { version = "4", features = ["derive"] }
libc = "0.2"
parking_lot = "0.12"
tracing = "0.1"
tracing-subscriber = { version = "0.3", features = ["env-filter"] }
thiserror = "1"
winit = "0.30"
ash = "0.38"
ash-window = "0.13"
raw-window-handle = "0.6"
