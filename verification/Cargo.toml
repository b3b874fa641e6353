[package]
name = "oktaws"
version = "0.1.0"
edition = "2021"
publish = false

[dependencies]
glob = "=0.3.4"
rayon = "=1.12.0"
structopt = "=0.3.26"
failure = "=0.1.8"
exitfailure = "=0.5.1"
log = "=0.4.34"
human-panic = "=1.2.3"
pretty_env_logger = "=0.4.0"
rusoto_sts = "=0.48.0"
