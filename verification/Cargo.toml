[package]
name = "bunchatools"
version = "0.1.0"
edition = "2021"
publish = false

[dependencies]
dirs = "=6.0.0"
futures-util = "=0.3.34"
log = "=0.4.34"
regex = "=1.13.1"
reqwest = { version = "=0.12.28", features = ["json", "stream"] }
serde = { version = "=1.0.229", features = ["derive"] }
serde_json = "=1.0.154"
tempfile = "=3.27.0"
tokio = { version = "=1.54.1", features = ["rt"] }
urlencoding = "=2.1.3"
whatlang = "=0.18.0"
winreg = "=0.56.0"
x11rb = { version = "=0.13.2", features = ["xtest"] }
zip = { version = "=6.0.0", default-features = false, features = ["deflate"] }
