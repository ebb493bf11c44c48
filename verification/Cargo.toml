[package]
name = "extract-assets"
version = "0.1.0"
edition = "2021"
publish = false

[dependencies]
anyhow = "=1.0.104"
base64 = "=0.21.7"
bytemuck = { version = "=1.25.2", features = ["derive"] }
byteorder = "=1.5.0"
glam = "=0.24.2"
glob = "=0.3.4"
gltf-json = { version = "=1.4.1", features = ["names"] }
log = "=0.4.34"
pretty_env_logger = "=0.5.0"
zerocopy = "=0.6.6"
