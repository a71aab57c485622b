[package]
name = "twebd"
version = "0.1.0"
edition = "2021"
publish = false

[dependencies]
chrono = "0.4"
clap = "4"
mime_guess = "2"
mio = { version = "0.8", features = ["os-poll", "net"] }
rustls = "0.21"
rustls-pemfile = "1"
