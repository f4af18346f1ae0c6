[package]
name = "dk-run"
version = "0.1.0"
edition = "2021"
publish = false

[dependencies]
anyhow = "=1.0.104"
ctrlc = "=3.5.2"
env_logger = "=0.7.1"
gimli = "=0.34.0"
log = "=0.4.34"
probe-rs = "=0.8.0"
probe-rs-rtt = "=0.3.0"
rustc-demangle = "=0.1.28"
xmas-elf = "=0.7.0"
