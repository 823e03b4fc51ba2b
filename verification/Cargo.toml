[package]
name = "log_auto_script_lib"
version = "0.1.0"
edition = "2021"
publish = false

[dependencies]
git2 = { version = "*", default-features = false }
chrono = "*"
clap = { version = "*", features = ["derive"] }
colored = "*"
exitcode = "*"
log = "*"
open = "*"
platform-dirs = "*"
reqwest = { version = "*", default-features = false, features = ["blocking"] }
serde = { version = "*", features = ["derive"] }
serde_json = "*"
serde_yaml = "*"
