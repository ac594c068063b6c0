[package]
name = "opaque"
version = "0.1.0"
edition = "2021"
publish = false

[dependencies]
ansi-parser = "*"
html-escape = "*"
uluru = "*"
lol_html = "*"

[dev-dependencies]
console = "*"
