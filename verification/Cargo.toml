[package]
name = "narcissus"
version = "0.1.0"
edition = "2021"
publish = false

[dependencies]
ctrlc = "3"
libc = "0.2"
rscam = "0.5"
rustface = "0.1"
serde = { version = "1", features = ["derive"] }
serde_json = "1"
