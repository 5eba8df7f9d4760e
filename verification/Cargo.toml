[package]
name = "fractal_algebra"
version = "0.1.0"
edition = "2021"
publish = false

[dependencies]
rand = "0.9"
rand_distr = "0.5"
num-complex = "0.4"
