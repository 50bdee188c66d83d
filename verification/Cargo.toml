[package]
name = "glitchup"
version = "0.1.0"
edition = "2021"
publish = false

[dependencies]
cfgmap = { version = "=0.4.0", features = ["from_toml"] }
memmap = "=0.7.0"
moveslice = "=2.0.1"
rand = "=0.7.3"
rand_core = "=0.5.1"
rand_xorshift = "=0.2.0"
rayon = "=1.12.0"
serde = { version = "=1.0.229", features = ["derive"] }
toml = "=0.5.11"
