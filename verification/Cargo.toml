[package]
name = "text3d_mesh"
version = "0.1.0"
edition = "2021"
publish = false

[dependencies]
cosmic-text = "=0.19.0"
zeno = "=0.3.3"
sys-locale = "=0.3.2"
ttf-parser = "=0.25.1"
