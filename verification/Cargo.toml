[package]
name = "soma_media"
version = "0.1.0"
edition = "2021"
publish = false

[dependencies]
anyhow = "=1.0.104"
async-trait = "=0.1.92"
chrono = "=0.4.45"
clap = { version = "=4.6.7", features = ["derive"] }
kamadak-exif = "=0.6.1"
fast_image_resize = "=6.1.0"
image = { version = "=0.25.10", default-features = false, features = ["jpeg", "png"] }
ndarray = "=0.17.2"
rayon = "=1.12.0"
rsraw = "=0.1.1"
rsraw-sys = "=0.1.1"
rustfft = "=6.4.1"
serde = { version = "=1.0.229", features = ["derive"] }
serde_json = "=1.0.154"
thiserror = "=2.0.21"
tokio = { version = "=1.54.1", features = ["full"] }
tracing = "=0.1.44"
tracing-subscriber = { version = "=0.3.23", features = ["env-filter"] }
tree_magic_mini = "=3.2.2"
webp = "=0.3.1"
