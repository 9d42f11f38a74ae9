[package]
name = "tola"
version = "0.1.0"
edition = "2021"
publish = false

[dependencies]
slug = "=0.1.6"
quick-xml = "=0.42.0"
urlencoding = "=2.1.3"
regex = "=1.13.1"
minify-html = "=0.18.1"
gix = { version = "=0.90.0", default-features = false, features = ["sha1", "excludes"] }
anyhow = "=1.0.104"
clap = { version = "=4.6.7", features = ["derive"] }
serde = { version = "=1.0.229", features = ["derive"] }
serde_json = "=1.0.154"
toml = "=1.1.8"
rayon = "=1.12.0"
shellexpand = "=3.1.2"
which = "=8.0.6"
colored = "=3.1.1"
crossterm = "=0.29.0"
thiserror = "*"
inquire = "*"
usvg = { version = "*", default-features = false }
