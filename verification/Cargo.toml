[package]
name = "checksame"
version = "0.1.0"
edition = "2021"
publish = false

[dependencies]
ahash = "=0.4.8"
argyle = "=0.6.8"
blake3 = "=1.8.7"
dowser = "=0.9.3"
fyi_msg = "=1.8.1"
rayon = "=1.10.0"
