[package]
name = "ferrite"
version = "0.1.0"
edition = "2021"
publish = false

[dependencies]
git2 = { version = "0.20", default-features = false, features = ["vendored-libgit2"] }
log = "0.4"

[dev-dependencies]
tempfile = "3"
