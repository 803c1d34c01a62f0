[package]
name = "tuner"
version = "0.1.0"
edition = "2021"
publish = false

[dependencies]
advanced_collections = "=0.1.0"
alsa = "=0.4.3"
itertools = "=0.8.2"
nix = "=0.15.0"
ordered-float = "=1.1.1"
pancurses-result = "=0.5.1"
rustfft = "=3.0.1"
serde = { version = "=1.0.229", features = ["derive"] }
serde_yaml = "=0.8.26"
snafu = "=0.6.10"
structopt = "=0.3.26"
