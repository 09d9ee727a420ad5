[package]
name = "raytracer"
version = "0.1.0"
edition = "2021"
publish = false

[dependencies]
rand = "=0.10.3"
rustc_apfloat = "=0.2.3"
softfloat = "=1.0.0"
