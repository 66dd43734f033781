[package]
name = "webdav"
version = "0.1.0"
edition = "2021"
publish = false

[dependencies]
quick-xml = "=0.31.0"
http = "=1.5.0"
headers = "=0.4.2"
uniresid = "=0.1.5"
time = { version = "=0.3.55", features = ["parsing", "formatting"] }
httpdate = "=1.0.3"
mime = "=0.3.17"
bytes = "=1.12.1"
once_cell = "=1.21.4"
