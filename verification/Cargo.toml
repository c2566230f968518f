[package]
name = "md_kroki"
version = "0.1.0"
edition = "2021"
publish = false

[dependencies]
pulldown-cmark = "*"
reqwest = { version = "*", default-features = false, features = ["blocking"] }
tokio = { version = "*", features = ["rt-multi-thread"] }
futures = "*"
anyhow = "*"
serde = "*"
serde_json = "*"
mdbook = { version = "*", default-features = false }
clap = "*"
env_logger = "*"
log = "*"
regex = "*"
uuid = { version = "*", features = ["v4"] }
svgbob = "*"
rayon = "*"
katex = "*"
