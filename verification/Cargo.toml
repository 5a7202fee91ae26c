[package]
name = "menial_2"
version = "0.1.0"
edition = "2021"
publish = false

[dependencies]
ansi_term = "0.12"
base64 = "0.22"
chrono = "0.4"
clap = "2"
lazy_static = "1"
num_cpus = "1"
openssl = "0.10"
sha2 = "0.10"
yaml-rust = "0.4"
