[package]
name = "geoshaper"
version = "0.1.0"
edition = "2021"
publish = false

[dependencies]
rand = "*"
image = "*"
nsvg = "*"
scoped_threadpool = "*"
clap = "*"
log = "*"
env_logger = "*"
