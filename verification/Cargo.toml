[package]
name = "donkey_make"
version = "0.1.0"
edition = "2021"
publish = false

[dependencies]
ansi_term = "0.12"
atty = "0.2"
clap = "2.33"
linked-hash-map = { version = "0.5", features = ["serde_impl"] }
nix = { version = "0.29", features = ["signal"] }
notify = "6"
serde = "1"
serde_derive = "1"
serde_yaml = "0.8"
signal-hook = "0.3"
strsim = "0.10"
