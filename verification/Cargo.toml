[package]
name = "nv_sensors_fs"
version = "0.1.0"
edition = "2021"
publish = false

[dependencies]
nvml-wrapper = "*"
fuser = "*"
libc = "*"
clap = { version = "*", features = ["derive"] }
anyhow = "*"
is-root = "*"
tracing = "*"
tracing-subscriber = "*"
