[package]
name = "mft2bodyfile"
version = "0.1.0"
edition = "2021"
publish = false

[dependencies]
anyhow = "=1.0.104"
bodyfile = "=0.1.4"
buf_stream_reader = "=0.2.0"
chrono = "=0.4.45"
clap = "=2.34.0"
flate2 = "=1.1.10"
indicatif = "=0.17.11"
likely_stable = "=0.1.3"
log = "=0.4.34"
mft = { version = "=0.6.1", default-features = false }
simplelog = "=0.12.2"
winstructs = "=0.3.2"
