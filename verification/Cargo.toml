[package]
name = "sourcetrait_backup"
version = "0.1.0"
edition = "2021"
publish = false

[dependencies]
chrono = { version = "0.4", default-features = false, features = ["clock", "std"] }
semver = "1"
shellexpand = "3"
colored = "2"
uzers = "0.12"
whoami = "*"
file_diff = "1"
directories = "*"
libc = "0.2"
clap = { version = "4", features = ["derive"] }
serde = { version = "1", features = ["derive"] }
sha256 = { version = "1", default-features = false }
snafu = "0.8"
strum = { version = "0.26", features = ["derive"] }
