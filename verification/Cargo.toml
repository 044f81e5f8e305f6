[package]
name = "rs_raytracer"
version = "0.1.0"
edition = "2021"
publish = false

[dependencies]
rand = { version = "=0.8.8", features = ["small_rng"] }
sdl2 = "=0.37.0"
