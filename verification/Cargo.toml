[package]
name = "release_plz_core"
version = "0.1.0"
edition = "2021"
publish = false

[dependencies]
anyhow = "1"
cargo_metadata = "*"
chrono = { version = "0.4", default-features = false, features = ["std", "clock"] }
dunce = "1"
fs-err = "3"
git-cliff-core = { version = "*", default-features = false }
parse-changelog = { version = "*", default-features = false }
tempfile = "3"
toml_edit = "*"
tracing = "0.1"
