[package]
name = "rust_script"
version = "0.1.0"
edition = "2021"
publish = false

[dependencies]
regex = "1"
toml = "0.8"
pulldown-cmark = { version = "0.9", default-features = false }
sha1 = "0.10"
dirs = "5"
is-terminal = "0.4"
shell-words = "1"
tempfile = "3"
clap = "4"
env_logger = "0.10"
log = "0.4"
crossbeam-channel = "0.5"
lazy_static = "1"
