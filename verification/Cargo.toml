[package]
name = "pixelsort"
version = "0.1.0"
edition = "2021"
publish = false

[dependencies]
image = "0.21"
clap = "2"
fern = { version = "0.5", features = ["colored"] }
chrono = "0.4"
log = "0.4"
