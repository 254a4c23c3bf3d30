[package]
name = "pbr_kernel"
version = "0.1.0"
edition = "2021"
publish = false

[dependencies]
bumpalo = "3"
clap = { version = "4", features = ["derive"] }
float_next_after = "*"
image = { version = "0.25", default-features = false, features = ["png"] }
