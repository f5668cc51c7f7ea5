[package]
name = "bfkmd"
version = "0.1.0"
edition = "2021"
publish = false

[dependencies]
bufkit-data = "=0.26.0"
chrono = "=0.4.45"
clap = "=2.34.0"
crossbeam-channel = "=0.5.17"
csv = "=1.4.0"
dirs = "=7.0.0"
itertools = "=0.15.0"
pbr = "=1.1.1"
reqwest = { version = "=0.11.27", default-features = false, features = ["blocking"] }
rusqlite = { version = "=0.38.0", default-features = false, features = ["bundled", "chrono"] }
sounding-analysis = "=0.17.5"
sounding-bufkit = "=0.16.0"
strum = "=0.27.2"
strum_macros = "=0.27.2"
textplots = "=0.8.7"
unicode-width = "=0.1.14"
