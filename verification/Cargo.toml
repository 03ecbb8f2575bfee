[package]
name = "twinpane"
version = "0.1.0"
edition = "2021"
publish = false

[dependencies]
regex = "1"
cursive = { version = "0.20", default-features = false, features = ["crossterm-backend"] }
cursive_table_view = "0.14"
crossbeam = "0.8"
nix = { version = "0.26", features = ["signal"] }
notify = "6"
notify-debouncer-mini = "0.4"
once_cell = "1"
signal-hook = "0.3"
thiserror = "1"
time = { version = "0.3", features = ["macros", "formatting", "local-offset"] }
walkdir = "2"
anyhow = "1"
interprocess = "1"
clia-local-offset = "*"
futures = "0.3"
rand = "0.8"
