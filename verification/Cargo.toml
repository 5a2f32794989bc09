[package]
name = "swiss_army_archive"
version = "0.1.0"
edition = "2021"
publish = false

[dependencies]
anyhow = "1"
bzip2 = "*"
flate2 = "1"
glob-match = "*"
sevenz-rust = { version = "*", features = ["compress"] }
sha256 = { version = "1", default-features = false }
tar = "0.4"
walkdir = "2"
xz2 = "0.1"
zip = { version = "*", default-features = false, features = ["deflate"] }
