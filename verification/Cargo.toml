[package]
name = "content_pipeline"
version = "0.1.0"
edition = "2021"
publish = false

[dependencies]
chrono = { version = "=0.4.45", features = ["serde"] }
comrak = { version = "=0.57.0", default-features = false }
regex = "=1.13.1"
serde = { version = "=1.0.229", features = ["derive"] }
serde_yaml = "=0.9.34"
tera = "=1.20.1"
html-minifier = "=6.0.0"
ignore = "=0.4.33"
rayon = "=1.12.0"
lazy_static = "=1.5.1"
typed-arena = "=2.0.2"
