[package]
name = "tiny-dfr"
version = "0.3.5"
edition = "2021"
publish = false

[dependencies]
anyhow = "=1.0.104"
cairo-rs = { version = "=0.22.9", default-features = false, features = ["freetype", "png"] }
chrono = { version = "=0.4.45", features = ["unstable-locales"] }
drm = "=0.15.0"
freetype-rs = "=0.38.0"
icon-loader = "=0.4.1"
input = "=0.9.1"
input-linux = { version = "=0.7.1", features = ["serde"] }
input-linux-sys = "=0.9.0"
libc = "=0.2.191"
librsvg = "=2.63.4"
nix = { version = "=0.29.0", features = ["event", "signal", "inotify"] }
privdrop = "=0.5.7"
serde = { version = "=1.0.229", features = ["derive"] }
toml = "=0.8.23"
toml_edit = { version = "=0.22.27", default-features = false, features = ["parse", "serde"] }
unicode-segmentation = "=1.13.3"
