[package]
name = "pdf_core"
version = "0.1.0"
edition = "2021"
publish = false

[dependencies]
pulldown-cmark = { version = "=0.13.5", default-features = false }
serde = { version = "=1.0.229", features = ["derive"] }
toml = "=0.8.23"
clap = { version = "=4.6.7", features = ["derive"] }
typst-as-lib = { version = "=0.14.4", features = ["typst-kit-fonts", "typst-kit-embed-fonts"] }
typst-library = "=0.13.1"
typst-pdf = "=0.13.1"
typst-svg = "=0.13.1"
