[package]
name = "clipboard_rs"
version = "0.1.0"
edition = "2021"
publish = false

[dependencies]
clipboard-win = "5"
image = { version = "0.25", default-features = false, features = ["png", "jpeg", "bmp"] }
thiserror = "1"
x11rb = { version = "0.13", features = ["xfixes"] }
