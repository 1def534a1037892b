[package]
name = "tiny-dfr"
version = "0.3.6"
edition = "2021"
publish = false

[dependencies]
anyhow = "1"
cairo-rs = { version = "*", features = ["freetype", "png"] }
chrono = { version = "0.4", features = ["unstable-locales"] }
cosmic-client-toolkit = "*"
drm = "*"
freedesktop-icons = "*"
freetype-rs = "*"
input = "*"
input-linux = { version = "*", features = ["serde"] }
input-linux-sys = "*"
libc = "0.2"
librsvg-rebind = "*"
minifb = "*"
nix = { version = "*", features = ["event", "inotify", "signal"] }
privdrop = "*"
serde = { version = "1", features = ["derive"] }
serde_json = "1"
sysinfo = "*"
toml = "*"
udev = "*"
