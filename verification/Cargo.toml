[package]
name = "diskann3_rest"
version = "0.1.0"
edition = "2021"
publish = false

[dependencies]
anyhow = "=1.0.104"
bytemuck = "=1.25.2"
crossbeam-channel = "=0.5.17"
diskann = "0.53.0"
diskann-disk = "0.53.0"
diskann-providers = "0.53.0"
diskann-vector = "0.53.0"
serde = { version = "=1.0.229", features = ["derive"] }
serde_json = "=1.0.154"
tiny_http = "=0.12.0"
ureq = { version = "=3.5.1", features = ["json"] }
