[package]
name = "link_rewrite"
version = "0.1.0"
edition = "2021"
publish = false

[dependencies]
itertools = "0.9"
pulldown-cmark = { version = "0.7", default-features = false }
pulldown-cmark-to-cmark = "5"
url = "2"
