[package]
name = "xshim"
version = "0.1.0"
edition = "2021"
publish = false

[dependencies]
argh = "=0.1.19"
command-fds = "*"
eyre = "=0.6.14"
rustix = { version = "=1.1.6", features = ["fs", "net", "pipe", "process", "rand", "system"] }
simple-eyre = "=0.3.1"
tokio = { version = "=1.54.1", features = ["io-util", "macros", "process", "rt"] }
x11rb = "=0.13.2"
zbus = { version = "=5.19.0", default-features = false, features = ["tokio"] }
zeroize = { version = "=1.9.1", features = ["derive"] }
