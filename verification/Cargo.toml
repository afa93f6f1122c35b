[package]
name = "vdora"
version = "0.1.0"
edition = "2021"
publish = false

[dependencies]
anyhow = "1"
directories = "5"
fs2 = "0.4"
gtk4 = "0.9"
libadwaita = "0.7"
hound = "3"
ksni = "0.2"
nix = { version = "0.29", features = ["signal", "process"] }
serde = { version = "1", features = ["derive"] }
tempfile = "3"
toml = "0.8"
tracing = "0.1"
tracing-subscriber = { version = "0.3", features = ["env-filter"] }
ureq = "3"
which = "6"
whisper-rs = "*"
