[package]
name = "quicfile"
version = "0.1.0"
edition = "2021"
publish = false

[dependencies]
quinn = "0.10"
rustls = "0.21"
rustls-pemfile = "1"
rcgen = "0.11"
directories-next = "2"
structopt = "0.3"
url = "2"
futures = "0.3"
tokio = { version = "1", features = ["rt-multi-thread", "macros", "io-util", "fs"] }
