[package]
name = "vibepanel"
version = "0.1.0"
edition = "2021"
publish = false

[dependencies]
async-channel = "=2.5.0"
libc = "=0.2.191"
notify-debouncer-mini = "=0.7.0"
nvml-wrapper = "=0.13.0"
parking_lot = "=0.12.5"
serde_json = "=1.0.154"
toml = "=1.1.8"
tracing = "=0.1.44"
