[package]
name = "strata"
version = "0.1.0"
edition = "2021"
publish = false

[dependencies]
rustix = { version = "=1.1.6", features = ["event", "fs", "net", "param"] }
gtk4 = "*"
gdk-pixbuf = "*"
cairo-rs = { version = "*", features = ["png"] }
poppler-rs = "*"

[dev-dependencies]
tempfile = "=3.27.0"
