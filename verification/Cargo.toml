[package]
name = "routinator"
version = "0.1.0"
edition = "2021"
publish = false

[dependencies]
clap = "2.32"
dirs = "1.0"
fern = "0.5"
log = "0.4"
num_cpus = "1.8"
syslog = "4.0"
toml = "0.4"
