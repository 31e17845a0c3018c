[package]
name = "spar_heave_pitch"
version = "0.1.0"
edition = "2021"
publish = false

[dependencies]
anyhow = "1"
ndarray = "0.15"
num-complex = "0.4"
ode_solvers = "0.4"
plotters = { version = "0.3", default-features = false, features = ["bitmap_backend", "bitmap_encoder", "ab_glyph", "all_series", "all_elements"] }
rand = "0.8"
rustfft = "6"
