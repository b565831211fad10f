[package]
name = "vibesentinel"
version = "0.3.0"
edition = "2021"
publish = false

[dependencies]
anyhow = "1"
burn = { version = "0.14", default-features = false, features = ["std", "autodiff"] }
burn-ndarray = { version = "0.14", default-features = false, features = ["std"] }
clap = { version = "4", features = ["derive"] }
csv = "1"
libm = "0.2"
log = "0.4"
microfft = "0.6"
rand = "0.8"
serde = { version = "1", features = ["derive"] }
