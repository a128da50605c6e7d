[package]
name = "site_sass"
version = "0.1.0"
edition = "2021"
publish = false

[dependencies]
anyhow = "1"
globset = "0.4"
grass_compiler = { version = "0.13", default-features = false, features = ["custom-builtin-fns"] }
serde = "1"
serde_json = "1"
walkdir = "2"
