[package]
name = "bereal_export"
version = "0.1.0"
edition = "2021"
publish = false

[dependencies]
image = "*"
img-parts = "*"
little_exif = "*"
num_cpus = "*"
regex = "*"
unic-ucd-name = "*"
serde = { version = "*", features = ["derive"] }
serde_json = "*"
clap = { version = "*", features = ["derive"] }
chrono-tz = "*"
