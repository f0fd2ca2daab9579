[package]
name = "polymesh_extension"
version = "0.1.0"
edition = "2021"
publish = false

[dependencies]
parity-scale-codec = { version = "3", features = ["derive"] }
scale-info = { version = "2", features = ["derive"] }
ink_env = { version = "3" }
ink_lang = { version = "3" }
