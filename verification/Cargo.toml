[package]
name = "oxidizr_arch"
version = "0.1.0"
edition = "2021"
publish = false

[dependencies]
clap = { version = "4", features = ["derive"] }
which = "*"
chrono = "*"
nix = { version = "*", features = ["user"] }
libc = "*"
atty = "*"
indicatif = "*"
log = "*"
tracing = "*"
tracing-subscriber = { version = "*", features = ["fmt", "json", "chrono", "registry"] }
tracing-log = "*"
serde_json = "*"

[dev-dependencies]
tempfile = "*"
