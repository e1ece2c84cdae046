[package]
name = "ansee"
version = "0.1.0"
edition = "2021"
publish = false

[dependencies]
ab_glyph = "=0.2.32"
anyhow = "=1.0.104"
clap = { version = "=4.6.7", features = ["derive"] }
dafont = "=0.1.1"
font-kit = "=0.14.3"
image = { version = "=0.25.10", default-features = false, features = ["png"] }
imageproc = { version = "=0.27.0", default-features = false, features = ["text"] }
