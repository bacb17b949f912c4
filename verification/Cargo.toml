[package]
name = "gm_data_win"
version = "0.1.0"
edition = "2021"
publish = false

[dependencies]
image = "*"
lazy-init = "*"
rayon = "*"
structopt = "0.3"
