[package]
name = "sheetgen"
version = "0.1.0"
edition = "2021"
publish = false

[dependencies]
calamine = "*"
clap = { version = "*", features = ["derive"] }
color-eyre = "*"
csv = "*"
tracing = "*"
tracing-subscriber = "*"
wildmatch = "*"
