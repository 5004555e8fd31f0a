[package]
name = "rustyclean"
version = "0.1.0"
edition = "2021"
publish = false

[dependencies]
iced = { version = "=0.10.0", default-features = false, features = ["tokio"] }
once_cell = "=1.21.4"
sysinfo = { version = "=0.29.11", default-features = false }
windows = { version = "=0.48.0", features = ["Win32_Foundation", "Win32_System_Com"] }
