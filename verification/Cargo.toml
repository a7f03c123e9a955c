[package]
name = "gitforge"
version = "0.1.0"
edition = "2021"
publish = false

[dependencies]
chrono = "0.4"
chrono-humanize = "*"
comrak = { version = "*", default-features = false }
futures = "0.1"
git2 = { version = "*", default-features = false }
hyper = "0.12"
hyperlocal = "0.6"
lazy_static = "1"
maud = "*"
mime = "0.3"
syntect = "*"
typed-arena = "*"

[dev-dependencies]
tempfile = "3"
