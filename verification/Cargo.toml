[package]
name = "msdf_atlas"
version = "0.1.0"
edition = "2021"
publish = false

[dependencies]
ttf-parser = "=0.25.1"
image = "=0.25.10"
rayon = "=1.12.0"
log = "=0.4.34"
simple-logging = "=2.0.2"
