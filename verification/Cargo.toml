[package]
name = "rasterfakers"
version = "0.2.0"
edition = "2021"

[dependencies]
clap = { version = "4", features = ["derive"] }
gdal = "*"
thiserror = "*"
