[package]
name = "wlr_capture"
version = "0.1.0"
edition = "2021"
publish = false

[dependencies]
anyhow = "1"
clap = { version = "4", features = ["derive"] }
egui = { version = "*", default-features = false, features = ["default_fonts"] }
egui_glow = { version = "*", default-features = false }
fontdb = "*"
gbm = "*"
glow = "*"
image = { version = "0.25", default-features = false, features = ["png"] }
resvg = { version = "*", default-features = false }
rustix = { version = "1", features = ["fs", "event", "process", "mm", "net", "pipe"] }
serde = { version = "1", features = ["derive"] }
serde_json = "1"
smithay-client-toolkit = "*"
swayipc = "*"
thiserror = "2"
toml = "*"
wayland-client = "*"
wayland-egl = "*"
wayland-protocols = { version = "*", features = ["client", "staging", "unstable"] }
wayland-protocols-wlr = { version = "*", features = ["client"] }
xkbcommon = "*"
