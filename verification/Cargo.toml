[package]
name = "fmu_runner"
version = "0.1.0"
edition = "2021"
publish = false

[dependencies]
itertools = "0.12"
libc = "0.2"
libfmi = "*"
libloading = "0.8"
quick-xml = { version = "0.31", features = ["serialize"] }
serde = { version = "1", features = ["derive"] }
tempfile = "3"
thiserror = "1"
zip = { version = "0.6", default-features = false, features = ["deflate"] }
