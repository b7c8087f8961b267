[package]
name = "curve_raster"
version = "0.1.0"
edition = "2021"
publish = false

[dependencies]
tiny-skia = "=0.12.0"
uniform-cubic-splines = "=0.5.2"
