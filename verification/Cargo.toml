[package]
name = "fuzzamoto"
version = "0.1.0"
edition = "2021"
publish = false

[dependencies]
bitcoin = { version = "0.32", default-features = false, features = ["std"] }
rand = "0.8"
clap = { version = "4", features = ["derive"] }
libafl = { version = "0.15", default-features = false, features = ["std"] }
libafl_bolts = { version = "0.15", default-features = false, features = ["std"] }
log = "0.4"
nix = { version = "0.30", features = ["signal", "process"] }
postcard = { version = "1", features = ["alloc"] }
serde = { version = "1", features = ["derive"] }
serde_json = "1"
serde_yaml = "0.9"
