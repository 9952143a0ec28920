[package]
name = "autosnap"
version = "0.1.0"
edition = "2021"
publish = false

[dependencies]
askalono = "=0.4.6"
cargo-lock = "=4.0.1"
cargo_toml = "=0.14.1"
clap = "=2.34.0"
git2 = "=0.13.25"
log = "=0.4.34"
# askalono reads and writes its caches with rmp-serde 0.14, which does not
# build against rmp 0.8.11 and later: this line holds rmp below that.
rmp = "=0.8.8"
serde = { version = "=1.0.229", features = ["derive"] }
serde_yaml = "=0.8.26"
simple_logger = "=1.16.0"
url = "=2.5.8"
walkdir = "=2.5.0"
