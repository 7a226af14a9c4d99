[package]
name = "rustshot"
version = "0.1.0"
edition = "2021"
publish = false

[dependencies]
vt100 = "=0.15.2"
image = { version = "=0.25.10", default-features = false, features = ["png"] }
imageproc = { version = "=0.25.1", default-features = false }
ab_glyph = "=0.2.32"
anyhow = "=1.0.104"
clap = { version = "=4.6.7", features = ["derive"] }
portable-pty = "=0.9.0"
