[package]
name = "nicyrtdyn"
version = "0.1.0"
edition = "2021"
publish = false

[dependencies]
libloading = "*"
mlua-sys = { version = "*", features = ["luau", "luau-codegen"] }
