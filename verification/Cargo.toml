[package]
name = "libmeld"
version = "0.1.0"
edition = "2021"
publish = false

[dependencies]
sha2 = "0.10"
rusqlite = { version = "*", features = ["bundled"] }
walkdir = "*"
path-clean = "*"
structopt = "0.3"
env_logger = "*"
log = "*"
snafu = "*"
