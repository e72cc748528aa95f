[package]
name = "snodas"
version = "0.1.0"
edition = "2021"
publish = false

[dependencies]
chrono = "0.4"
flate2 = "*"
ftp = "*"
image = { version = "*", default-features = false }
minifb = "*"
ndarray = "*"
ndarray-npy = "*"
tar = "*"
