[package]
name = "nb2typst"
version = "0.1.0"
edition = "2021"
publish = false

[dependencies]
base64 = "=0.22.1"
clap = { version = "=4.6.7", features = ["derive"] }
html5ever = "=0.39.0"
image = { version = "=0.25.10", default-features = false }
jupyter-protocol = "=2.0.2"
markdown = "=1.0.0"
markup5ever_rcdom = "=0.39.0"
nbformat = "=3.0.0"
reqwest = { version = "=0.13.5", default-features = false, features = ["blocking"] }
serde_json = "=1.0.154"
thiserror = "=2.0.21"
url = "=2.5.8"
uuid = { version = "=1.29.0", features = ["v4"] }
