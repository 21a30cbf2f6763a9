[package]
name = "renamer"
version = "0.1.0"
edition = "2021"
publish = false

[dependencies]
natord = "=1.0.9"
walkdir = "=2.5.0"
iced = { version = "0.13", default-features = false, features = ["tiny-skia"] }
rfd = { version = "0.15", default-features = false, features = ["xdg-portal", "tokio"] }
dirs-next = "2"
async-stream = "0.3"
futures = "0.3"
