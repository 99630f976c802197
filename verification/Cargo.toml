[package]
name = "nptk_widgets"
version = "0.1.0"
edition = "2021"
publish = false

[dependencies]
humansize = "2"
zbus = "5"
serde = { version = "1", features = ["derive"] }
x11-dl = "2"
system-tray = "*"
tokio = { version = "1", features = ["rt-multi-thread", "sync", "macros"] }
log = "0.4"
chrono = "0.4"
