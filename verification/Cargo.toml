[package]
name = "blair"
version = "0.1.0"
edition = "2021"
publish = false

[dependencies]
anyhow = "1"
dirs = "5"
fontdue = "0.9"
futures-util = "0.3"
image = { version = "0.25", default-features = false, features = ["jpeg", "png"] }
notify = "6"
png = "0.17"
profiling = "1"
regex = "1"
serde = { version = "1", features = ["derive"] }
signal-hook = "0.3"
smithay = { version = "0.7", default-features = false, features = ["backend_drm", "backend_egl", "backend_gbm", "backend_winit", "desktop", "renderer_gl", "wayland_frontend"] }
tokio = { version = "1", features = ["macros", "rt", "sync", "time"] }
toml = "0.8"
tracing = "0.1"
tracing-subscriber = { version = "0.3", features = ["env-filter"] }
xcursor = "0.3"
zbus = "5"
