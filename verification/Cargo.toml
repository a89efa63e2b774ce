[package]
name = "ldr2pdf"
version = "0.1.0"
edition = "2021"
publish = false

[dependencies]
glam = { version = "=0.34.0", features = ["bytemuck"] }
bytemuck = "1.9"
weldr = "=0.3.1"
slab = "=0.4.12"
zip = { version = "=8.6.0", default-features = false, features = ["deflate"] }
lopdf = "=0.45.0"
quick-xml = { version = "=0.42.0", features = ["serialize"] }
serde = { version = "=1.0.229", features = ["derive"] }
serde_with = "=3.24.0"
tidier = "=0.5.6"
walkdir = "=2.5.0"
dirs = "=7.0.0"
pretty_assertions = "=1.4.1"
