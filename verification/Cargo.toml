[package]
name = "blue_compositor"
version = "0.1.0"
edition = "2021"
publish = false

[dependencies]
calloop = "0.14"
chrono = "0.4"
dirs = "*"
libc = "0.2"
serde = { version = "1", features = ["derive"] }
serde_json = "1"
smithay = { version = "0.7", default-features = false, features = ["backend_drm", "backend_egl", "backend_gbm", "backend_session", "backend_winit", "desktop", "renderer_gl", "renderer_multi", "wayland_frontend", "xwayland"] }
tracing = "0.1"
wayland-protocols = { version = "0.32", features = ["server"] }
wayland-protocols-wlr = { version = "0.3", features = ["server"] }
wayland-server = "0.31"

[dev-dependencies]
drm-fourcc = "2"
xkeysym = "0.2"
