[package]
name = "cursor_element"
version = "0.1.0"
edition = "2021"
publish = false

[dependencies]
xcursor = "0.3"
log = "0.4"
smithay = { version = "*", default-features = false, features = ["renderer_gl", "wayland_frontend"] }
wayland-server = "0.31"
smithay-client-toolkit = "0.16"
