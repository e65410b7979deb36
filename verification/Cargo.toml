[package]
name = "surface_bounds"
version = "0.1.0"
edition = "2021"
publish = false

[dependencies]
nalgebra = { version = "*", default-features = false, features = ["std"] }

[dev-dependencies]
rand = "0.8"
