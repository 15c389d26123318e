[package]
name = "imgopt"
version = "0.1.0"
edition = "2021"
publish = false

[dependencies]
image = "0.24"
mozjpeg = "0.9"
oxipng = "8"
webp = "0.3"
serde = { version = "1", features = ["derive"] }
thiserror = "1"
