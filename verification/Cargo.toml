[package]
name = "sphinx_ultra"
version = "0.1.0"
edition = "2021"
publish = false

[dependencies]
pulldown-cmark = "=0.13.4"
syntect = { version = "=5.3.0", default-features = false, features = ["default-fancy"] }

[dev-dependencies]
html-escape = "=0.2.15"
regex = "=1.13.1"
