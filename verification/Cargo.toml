[package]
name = "cargo_spec"
version = "0.1.0"
edition = "2021"
publish = false

[dependencies]
askama = "0.11"
clap = { version = "3", features = ["derive"] }
comrak = { version = "0.12", default-features = false }
miette = "4"
notify = "4"
serde = { version = "1", features = ["derive"] }
thiserror = "1"
tinytemplate = "1"
toml = "0.5"
