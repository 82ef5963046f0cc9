[package]
name = "req"
version = "0.1.0"
edition = "2021"
publish = false

[dependencies]
async-trait = "0.1"
base64 = "*"
clap = { version = "4", features = ["derive"] }
colored = "*"
colored_json = "*"
httpclient = "*"
mime_guess = "2"
serde_json = "1"
serde_urlencoded = "0.7"
sigpipe = "*"
tokio = { version = "1", features = ["rt", "macros"] }
