[package]
name = "list_images"
version = "0.1.0"
edition = "2021"
publish = false

[dependencies]
base64 = "=0.23.1"
bytesize = "=2.7.0"
clap = { version = "=4.6.7", features = ["derive"] }
crossbeam-channel = "=0.5.17"
dirs = "=7.0.0"
hex = "=0.4.3"
image = "=0.25.10"
nix = { version = "=0.31.3", features = ["term"] }
num_cpus = "=1.17.0"
sha2 = "=0.11.0"
