[package]
name = "dynamicnoti"
version = "0.1.0"
edition = "2021"
publish = false

[dependencies]
anyhow = "1"
bytemuck = { version = "1", features = ["derive"] }
calloop = "0.13"
calloop-wayland-source = "0.3"
enumflags2 = "0.7"
flume = "0.11"
futures-util = "0.3"
glyphon = "0.7"
image = { version = "0.25", default-features = false, features = ["png", "jpeg"] }
indexmap = "2"
libc = "0.2"
notify = "7"
pollster = "0.4"
raw-window-handle = "0.6"
serde = { version = "1", features = ["derive"] }
serde_json = "1"
smithay-client-toolkit = { version = "0.19", default-features = false, features = ["calloop"] }
thiserror = "1"
tokio = { version = "1", features = ["full"] }
toml = "0.8"
tracing = "0.1"
tracing-subscriber = { version = "0.3", features = ["env-filter"] }
ureq = { version = "2", default-features = false }
wayland-backend = { version = "0.3", features = ["client_system", "dlopen"] }
wayland-client = "0.31"
wayland-protocols-plasma = { version = "0.3", features = ["client"] }
wgpu = "23"
zbus = { version = "5", default-features = false, features = ["tokio"] }
