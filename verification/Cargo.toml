[package]
name = "scrollcal"
version = "0.1.0"
edition = "2021"
publish = false

[dependencies]
chrono = "*"
cairo-rs = "0.20"
pango = "0.20"
pangocairo = "0.20"
ical = "*"
reqwest = { version = "*", default-features = false, features = ["blocking"] }
itertools = "*"
anyhow = "*"
thiserror = "*"
clap = { version = "*", features = ["derive"] }
tracing = "*"
tracing-subscriber = "*"
