[package]
name = "fanctrlrs"
version = "0.1.0"
edition = "2021"
publish = false

[dependencies]
serde = { version = "1", features = ["derive"] }
toml = "=1.1.7"
structopt = "=0.3.26"
signal-hook = "=0.4.5"
rust_gpiozero = "=0.2.1"
reqwest = { version = "=0.13.5", default-features = false, features = ["blocking", "form"] }
