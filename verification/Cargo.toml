[package]
name = "xrt"
version = "0.1.0"
edition = "2021"
publish = false

[dependencies]
num-complex = "*"
thiserror = "*"
anyhow = "*"
ndarray = "*"
rayon = "*"
npyz = "*"
zip = { version = "*", default-features = false, features = ["deflate"] }
