[package]
name = "mvtool"
version = "0.1.0"
edition = "2021"
publish = false

[dependencies]
semver = "1"
qrcode = { version = "*", default-features = false }
image = { version = "*", default-features = false, features = ["ico", "png"] }
tokio = { version = "1", features = ["rt-multi-thread", "sync", "fs", "process", "io-util"] }
futures = "*"
mlua = { version = "*", features = ["lua54", "vendored"] }
winit = "0.30"
glutin = "*"
imgui = { version = "*", features = ["docking"] }
imgui-winit-support = "*"
imgui-glow-renderer = "*"
arboard = { version = "*", default-features = false }
notify-rust = "*"
open = "*"
reqwest = { version = "*", default-features = false, features = ["json", "rustls-tls"] }
self-replace = "*"
tar = "*"
walkdir = "*"
serde = { version = "1", features = ["derive"] }
serde_json = "1"
