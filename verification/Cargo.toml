[package]
name = "rsdg"
version = "0.1.0"
edition = "2021"
publish = false

[dependencies]
serde = { version = "1", features = ["derive"] }
serde-xml-rs = "*"
structopt = "0.3"
