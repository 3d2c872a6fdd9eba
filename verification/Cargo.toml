[package]
name = "prompt_builder"
version = "0.1.0"
edition = "2021"
publish = false

[dependencies]
copypasta = { version = "=0.10.2", default-features = false, features = ["x11"] }
rfd = { version = "=0.14.1", default-features = false, features = ["xdg-portal", "tokio"] }
slint = { version = "=1.18.1", default-features = false, features = ["std", "compat-1-2"] }
