[package]
name = "wl-showkeys"
version = "0.1.0"
edition = "2021"
publish = false

[dependencies]
cairo-rs = "0.20"
input = "0.9"
libc = "0.2"
nix = { version = "0.29", features = ["event", "fs", "mman", "poll", "process", "socket", "time", "uio", "user"] }
pango = "0.20"
pangocairo = "0.20"
wayland-client = "0.31"
wayland-protocols-wlr = { version = "0.3", features = ["client"] }
xkbcommon = "0.8"
