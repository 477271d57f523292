[package]
name = "blog_pipeline"
version = "0.1.0"
edition = "2021"
publish = false

[dependencies]
chrono = { version = "=0.4.45", default-features = false, features = ["std"] }
comrak = { version = "=0.57.0", default-features = false }
fs_extra = "=1.3.0"
serde = "=1.0.229"
serde_derive = "=1.0.229"
slime = "=0.4.0"
toml = "=0.4.10"
