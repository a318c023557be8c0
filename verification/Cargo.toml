[package]
name = "cppgen"
version = "0.1.0"
edition = "2021"
publish = false

[dependencies]
pathdiff = "=0.2.3"
clap = { version = "=4.5.61", features = ["derive"] }
color-eyre = "=0.6.5"
include_dir = "=0.7.4"
itertools = "=0.14.0"
log = "=0.4.34"
pretty_env_logger = "=0.5.0"
walkdir = "=2.5.0"
