[package]
name = "asset_manager"
version = "0.1.0"
edition = "2021"
publish = false

[dependencies]
specs = "=0.7.1"
wavefront_obj = "=11.0.0"
imagefmt = "=4.0.0"
cgmath = "=0.18.0"
gfx = "=0.18.3"
gfx_device_gl = "=0.16.2"
