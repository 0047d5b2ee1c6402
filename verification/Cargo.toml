[package]
name = "pomme_renderer"
version = "0.1.0"
edition = "2021"
publish = false

[dependencies]
png = "=0.18.1"
image = "=0.25.10"
serde_json = "=1.0.154"
uuid = "=1.29.0"
time = { version = "=0.3.55", features = ["formatting", "local-offset", "macros"] }
chrono = "=0.4.45"
fontdue = "=0.9.5"
glam = "=0.34.2"
bytemuck = { version = "=1.25.2", features = ["derive"] }
tracing = "=0.1.44"
pyronyx = "=0.5.0"
