[package]
name = "debug_draw"
version = "0.1.0"
edition = "2021"
publish = false

[dependencies]
ttf-parser = "=0.25.1"
lyon_tessellation = "=1.0.22"
