[package]
name = "hyperion"
version = "0.1.0"
edition = "2021"
publish = false

[dependencies]
rand = "0.8"
httpdate = "1"
hyper = { version = "0.14", features = ["full"] }
tokio = { version = "1", features = ["full"] }
structopt = "0.3"
toml = "0.5"
serde = { version = "1", features = ["derive"] }
walkdir = "2"
rayon = "1"
libloading = "0.7"
ws = "0.9"
scrypt = "0.7"
pwhash = "1"
err-derive = "0.3"
