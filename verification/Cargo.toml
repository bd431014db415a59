[package]
name = "windows_startup_manager"
version = "0.1.0"
edition = "2021"
publish = false

[dependencies]
clap = { version = "*", features = ["derive"] }
colored = "*"
winreg = "*"
