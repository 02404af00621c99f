[package]
name = "remcal"
version = "0.1.0"
edition = "2021"
publish = false

[dependencies]
minidom = "*"
unicode-segmentation = "*"
chrono = "*"
chrono-tz = "*"
url = "*"
reqwest = { version = "*", default-features = false }
tokio = { version = "*", default-features = false, features = ["rt", "macros"] }
clap = { version = "*", features = ["derive"] }
dotenv = "*"
anyhow = "*"
