[package]
name = "veritas"
version = "0.1.0"
edition = "2021"
publish = false

[dependencies]
sha1 = "=0.10.7"
md-5 = "=0.10.6"
serialport = { version = "=4.10.1", default-features = false }
tasd = "=0.6.0"
crossterm = "=0.29.0"
ctrlc = "=3.5.2"
clap = "=4.6.7"
