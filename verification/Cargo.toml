[package]
name = "bevy_ggrs"
version = "0.1.0"
edition = "2021"
publish = false

[dependencies]
bevy = { version = "=0.11.3", default-features = false }
bitfield-rle = "=0.2.0"
bytemuck = { version = "=1.25.2", features = ["derive"] }
ggrs = { version = "=0.9.4", features = ["sync-send"] }
instant = "=0.1.13"
log = "=0.4.34"
